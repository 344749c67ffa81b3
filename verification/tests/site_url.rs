use site_health::site_url::{
    candidate_url, has_scheme, parse_site_url, screen_url, SiteHost, SiteUrl,
};

fn host_of(input: &str) -> Option<String> {
    parse_site_url(input).and_then(|url| url.host_str)
}

fn url(scheme: &str, host: Option<SiteHost>, host_str: Option<&str>) -> SiteUrl {
    let text = format!("{scheme}://{}", host_str.unwrap_or(""));
    SiteUrl { text, scheme: scheme.to_string(), host, host_str: host_str.map(|s| s.to_string()) }
}

#[test]
fn candidates_have_a_scheme() {
    assert_eq!(candidate_url(" example.com "), Some("https://example.com".to_string()));
    assert_eq!(candidate_url("http://example.com"), Some("http://example.com".to_string()));
    assert_eq!(candidate_url("a://b"), Some("a://b".to_string()));
    assert_eq!(candidate_url(""), None);
    assert_eq!(candidate_url(" \t "), None);
}

#[test]
fn a_later_mark_is_no_scheme() {
    assert_eq!(
        candidate_url("example.com/?next=https://x.org"),
        Some("https://example.com/?next=https://x.org".to_string())
    );
    let site = parse_site_url("example.com/?next=https://x.org").unwrap();
    assert_eq!(site.text, "https://example.com/?next=https://x.org");
    assert_eq!(site.host_str.unwrap(), "example.com");
}

#[test]
fn recognizes_schemes() {
    for given in ["https://", "HTTP://x", "a+b-c.d1://", "x://y://z"] {
        assert!(has_scheme(given), "{given}");
    }
    for missing in ["", "://", "1a://b", "a b://c", "a/b://c", "http:/x", "é://x", "example.com"] {
        assert!(!has_scheme(missing), "{missing}");
    }
}

#[test]
fn a_written_url_is_accepted_again() {
    for input in ["example.com", "http://u:p@a.nl:81/x y?q#f", "münchen.de/ü", "[::1]"] {
        let once = parse_site_url(input).unwrap();
        let again = parse_site_url(&once.text).unwrap();
        assert_eq!(again.text, once.text);
        assert_eq!(again.host_str, once.host_str);
    }
}

#[test]
fn long_labels_are_not_always_read_back() {
    let label: String = (0..900u32).map(|i| char::from_u32(0x4e00 + i * 7919 % 20000).unwrap()).collect();
    let once = parse_site_url(&format!("{label}.com")).unwrap();
    assert!(parse_site_url(&once.text).is_none());
}

#[test]
fn parses_domains_and_addresses() {
    assert_eq!(host_of("example.com"), Some("example.com".to_string()));
    assert_eq!(host_of(" HTTPS://Example.COM/path?q#f "), Some("example.com".to_string()));
    assert_eq!(host_of("http://user@example.com:8080"), Some("example.com".to_string()));
    assert_eq!(host_of("127.0.0.1"), Some("127.0.0.1".to_string()));
    assert_eq!(host_of("http://[::1]/"), Some("[::1]".to_string()));
    assert_eq!(host_of("münchen.de"), Some("xn--mnchen-3ya.de".to_string()));
}

#[test]
fn the_parsed_parts_are_those_of_the_url() {
    let site = parse_site_url("HTTP://Example.com").unwrap();
    assert_eq!(site.text, "http://example.com/");
    assert_eq!(site.scheme, "http");
    assert!(matches!(site.host, Some(SiteHost::Domain(name)) if name == "example.com"));
    let v4 = parse_site_url("https://10.0.0.1").unwrap();
    assert!(matches!(v4.host, Some(SiteHost::Ipv4)));
    let v6 = parse_site_url("[::1]").unwrap();
    assert!(matches!(v6.host, Some(SiteHost::Ipv6)));
}

#[test]
fn rejects_what_is_no_site() {
    for input in [
        "", "  ", "uuu", "uuu.", "uuu.1", "999.999.999.999", "ftp://example.com", "https://",
        "data://x.com", "file:///tmp", "a b.com", "http://exa mple.com",
    ] {
        assert!(parse_site_url(input).is_none(), "{input}");
    }
}

#[test]
fn a_missing_scheme_is_https() {
    assert_eq!(parse_site_url("example.com").unwrap().scheme, "https");
    assert_eq!(host_of("example.com"), host_of("https://example.com"));
}

#[test]
fn hosts_hold_neither_slashes_nor_white_space() {
    for input in ["example.com//", "http://example.com%2Fa.com", "a.com／b.com", "a\u{3000}b.com"] {
        if let Some(host) = host_of(input) {
            assert!(!host.contains('/') && !host.chars().any(|c| c.is_whitespace()), "{input}");
        }
    }
}

#[test]
fn screening_looks_at_scheme_and_host() {
    let domain = |name: &str| Some(SiteHost::Domain(name.to_string()));
    assert!(screen_url(None).is_none());
    assert!(screen_url(Some(url("https", domain("a.nl"), Some("a.nl")))).is_some());
    assert!(screen_url(Some(url("http", Some(SiteHost::Ipv4), Some("1.2.3.4")))).is_some());
    assert!(screen_url(Some(url("http", Some(SiteHost::Ipv6), Some("[::1]")))).is_some());
    assert!(screen_url(Some(url("ftp", domain("a.nl"), Some("a.nl")))).is_none());
    assert!(screen_url(Some(url("https", domain("nl"), Some("nl")))).is_none());
    assert!(screen_url(Some(url("https", None, None))).is_none());
}

#[test]
fn a_copy_of_a_url_is_the_same() {
    let site = parse_site_url("example.com").unwrap();
    let copy = site.clone();
    assert_eq!(copy.text, site.text);
    assert_eq!(copy.scheme, site.scheme);
    assert_eq!(copy.host_str, site.host_str);
}
