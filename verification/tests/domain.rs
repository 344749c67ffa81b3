use site_health::domain::{domain_looks_real, normalize_domain};

#[test]
fn entries_become_bare_domains() {
    assert_eq!(normalize_domain("example.com"), "example.com");
    assert_eq!(normalize_domain("https://example.com"), "example.com");
    assert_eq!(normalize_domain("http://example.com/"), "example.com");
    assert_eq!(normalize_domain(" https://example.com/// "), "example.com");
    assert_eq!(normalize_domain("https://https://example.com"), "example.com");
    assert_eq!(normalize_domain("https://http://example.com"), "example.com");
    assert_eq!(normalize_domain("example.com/path/"), "example.com/path");
    assert_eq!(normalize_domain(""), "");
    assert_eq!(normalize_domain("https://"), "");
}

#[test]
fn any_run_of_schemes_is_stripped() {
    assert_eq!(normalize_domain("http://https://a.com"), "a.com");
    assert_eq!(normalize_domain("http://https://http://a.com//"), "a.com");
    assert_eq!(normalize_domain("HTTPS://a.com"), "a.com");
    assert_eq!(normalize_domain("Http://hTTPS://A.com"), "A.com");
}

#[test]
fn white_space_is_stripped_wherever_it_ends_up_outside() {
    assert_eq!(normalize_domain("https:// a.com"), "a.com");
    assert_eq!(normalize_domain(" http:// https:// a.com / "), "a.com");
    assert_eq!(normalize_domain("a.com /"), "a.com");
}

#[test]
fn a_scheme_name_with_slashes_is_a_scheme() {
    assert_eq!(normalize_domain("http:"), "http:");
    assert_eq!(normalize_domain("http://"), "");
}

#[test]
fn normalizing_twice_changes_nothing() {
    for s in ["https://example.com/", " a.b ", "x", "http://https://a.com", "https:// a /", "http:"] {
        let once = normalize_domain(s);
        assert_eq!(normalize_domain(&once), once);
    }
}

#[test]
fn rejects_names_that_are_no_domains() {
    assert!(!domain_looks_real("uuu"));
    assert!(!domain_looks_real("uuu."));
    assert!(!domain_looks_real("uuu.1"));
    assert!(!domain_looks_real(""));
    assert!(!domain_looks_real("."));
    assert!(!domain_looks_real(".com"));
    assert!(!domain_looks_real("a..com"));
    assert!(!domain_looks_real("a.c"));
    assert!(!domain_looks_real("a.c0m"));
    assert!(!domain_looks_real("a.é"));
    assert!(!domain_looks_real("a.éé"));
}

#[test]
fn accepts_names_that_look_real() {
    assert!(domain_looks_real("example.com"));
    assert!(domain_looks_real("a.b.co"));
    assert!(domain_looks_real("1.NL"));
    assert!(domain_looks_real("é.nl"));
}
