//! Site URLs typed by the user.

use vstd::prelude::*;
use crate::domain;
use crate::domain::{is_letter, looks_real};
use crate::text;
use crate::text::{begins_with, is_white_space, trimmed};

verus! {

/// The host of a URL: a domain name, or an IP address of either version.
#[derive(Debug)]
pub enum SiteHost {
    /// A domain name.
    Domain(String),
    /// An IPv4 address.
    Ipv4,
    /// An IPv6 address.
    Ipv6,
}

/// The parts of a URL that the applet reads.
#[derive(Debug)]
pub struct SiteUrl {
    /// The whole URL, written out.
    pub text: String,
    /// The scheme, in lower case and without its colon.
    pub scheme: String,
    /// The parsed host.
    pub host: Option<SiteHost>,
    /// The host as text; an IPv6 address stands in square brackets.
    pub host_str: Option<String>,
}

/// The model of a `SiteHost`.
pub enum HostView {
    Domain(Seq<char>),
    Ipv4,
    Ipv6,
}

/// The model of a `SiteUrl`.
pub struct UrlView {
    pub text: Seq<char>,
    pub scheme: Seq<char>,
    pub host: Option<HostView>,
    pub host_str: Option<Seq<char>>,
}

impl View for SiteHost {
    type V = HostView;

    open spec fn view(&self) -> HostView {
        match self {
            SiteHost::Domain(name) => HostView::Domain(name@),
            SiteHost::Ipv4 => HostView::Ipv4,
            SiteHost::Ipv6 => HostView::Ipv6,
        }
    }
}

impl View for SiteUrl {
    type V = UrlView;

    open spec fn view(&self) -> UrlView {
        UrlView {
            text: self.text@,
            scheme: self.scheme@,
            host: match self.host {
                Some(host) => Some(host@),
                None => None,
            },
            host_str: text_of(self.host_str),
        }
    }
}

/// The model of an optional text.
pub open spec fn text_of(s: Option<String>) -> Option<Seq<char>> {
    match s {
        Some(t) => Some(t@),
        None => None,
    }
}

/// The model of an optional URL.
pub open spec fn url_of(u: Option<SiteUrl>) -> Option<UrlView> {
    match u {
        Some(v) => Some(v@),
        None => None,
    }
}

impl UrlView {
    /// Whether the scheme is one that a site can be requested by.
    pub open spec fn is_http(self) -> bool {
        self.scheme == "http"@ || self.scheme == "https"@
    }

    /// Whether the host is an IP address, or a domain name that looks real.
    pub open spec fn host_looks_real(self) -> bool {
        match self.host {
            Some(HostView::Domain(name)) => looks_real(name),
            Some(_) => true,
            None => false,
        }
    }

    /// Whether the URL is one that can be watched.
    pub open spec fn is_site(self) -> bool {
        self.is_http() && self.host_looks_real()
    }

    /// Whether the two forms of the host agree: both are there or neither is, and a domain name
    /// is its own text.
    pub open spec fn hosts_agree(self) -> bool {
        &&& self.host is Some <==> self.host_str is Some
        &&& self.host matches Some(HostView::Domain(name)) ==> self.host_str == Some(name)
    }

    /// Whether the text of the host is free of slashes and white space.
    pub open spec fn host_is_plain(self) -> bool {
        self.host_str matches Some(name) ==> forall|i: int|
            0 <= i < name.len() ==> (#[trigger] name[i]) != '/' && !is_white_space(name[i])
    }

    /// Whether the written URL begins with its scheme and `://`, and is free of white space.
    pub open spec fn text_is_plain(self) -> bool {
        &&& begins_with(self.text, self.scheme + "://"@)
        &&& forall|i: int| 0 <= i < self.text.len() ==> !is_white_space(#[trigger] self.text[i])
    }
}

/// What `url::Url::parse` makes of a text: the parts of the URL, or `None` where
/// the text is no absolute URL.
pub uninterp spec fn url_parse(input: Seq<char>) -> Option<UrlView>;

/// Whether `c` can stand in the scheme of a URL.
pub open spec fn is_scheme_char(c: char) -> bool {
    is_letter(c) || ('0' <= c && c <= '9') || c == '+' || c == '-' || c == '.'
}

/// Whether the first `k` characters of `t` are a scheme and `://` follows them.
pub open spec fn gives_scheme_of(t: Seq<char>, k: int) -> bool {
    &&& 0 < k <= t.len()
    &&& is_letter(t[0])
    &&& forall|i: int| 0 <= i < k ==> is_scheme_char(#[trigger] t[i])
    &&& begins_with(t.skip(k), "://"@)
}

/// Whether `t` begins with a scheme and `://`. A scheme is a letter followed by letters, digits,
/// `+`, `-` and `.`.
pub open spec fn gives_scheme(t: Seq<char>) -> bool {
    exists|k: int| gives_scheme_of(t, k)
}

/// The text that is parsed for a typed input: the input without surrounding white space, with
/// `https://` in front where no scheme is given. There is none for a blank input.
pub open spec fn candidate(input: Seq<char>) -> Option<Seq<char>> {
    let typed = trimmed(input);
    if typed.len() == 0 {
        None
    } else if gives_scheme(typed) {
        Some(typed)
    } else {
        Some("https://"@ + typed)
    }
}

/// What is left of a parsed URL: the URL itself if it can be watched.
pub open spec fn screened(parsed: Option<UrlView>) -> Option<UrlView> {
    match parsed {
        Some(url) => if url.is_site() {
            Some(url)
        } else {
            None
        },
        None => None,
    }
}

/// The site URL that a typed input stands for.
pub open spec fn site_url(input: Seq<char>) -> Option<UrlView> {
    match candidate(input) {
        Some(text) => screened(url_parse(text)),
        None => None,
    }
}

impl Clone for SiteHost {
    fn clone(&self) -> (res: Self)
        ensures
            res@ == self@,
    {
        match self {
            SiteHost::Domain(name) => SiteHost::Domain(name.clone()),
            SiteHost::Ipv4 => SiteHost::Ipv4,
            SiteHost::Ipv6 => SiteHost::Ipv6,
        }
    }
}

impl Clone for SiteUrl {
    fn clone(&self) -> (res: Self)
        ensures
            res@ == self@,
    {
        SiteUrl {
            text: self.text.clone(),
            scheme: self.scheme.clone(),
            host: match &self.host {
                Some(host) => Some(host.clone()),
                None => None,
            },
            host_str: match &self.host_str {
                Some(name) => Some(name.clone()),
                None => None,
            },
        }
    }
}

/// Calls `url::Url::parse` and reads the URL with `url::Url::as_str`, `url::Url::scheme`,
/// `url::Url::host` and `url::Url::host_str`; an error becomes `None`.
///
/// Trusted: the outcome depends on the text alone; `host` and `host_str` speak of the same host,
/// and a domain name is given by both as the same text; the host of an `http` or `https` URL,
/// which is an IP address or a domain name in ASCII without forbidden domain code points, holds
/// neither slashes nor white space; such a URL is written out as its scheme, `://` and what
/// follows, in which white space is percent-encoded or dropped; `https://` alone, without a host,
/// is no URL.
///
/// Nothing is said of what the parser makes of a URL that it wrote out itself: it does not always
/// read it back, for example where a label of the host is longer once it is encoded than the
/// decoder admits.
#[verifier::external_body]
fn parse_url(input: &str) -> (res: Option<SiteUrl>)
    ensures
        url_of(res) == url_parse(input@),
        res matches Some(url) ==> url@.hosts_agree() && (url@.is_http() ==> url@.host_is_plain()
            && url@.text_is_plain()),
        input@ == "https://"@ ==> res is None,
{
    match ::url::Url::parse(input) {
        Ok(url) => Some(SiteUrl {
            text: url.as_str().to_string(),
            scheme: url.scheme().to_string(),
            host: match url.host() {
                Some(::url::Host::Domain(name)) => Some(SiteHost::Domain(name.to_string())),
                Some(::url::Host::Ipv4(_)) => Some(SiteHost::Ipv4),
                Some(::url::Host::Ipv6(_)) => Some(SiteHost::Ipv6),
                None => None,
            },
            host_str: url.host_str().map(|name| name.to_string()),
        }),
        Err(_) => None,
    }
}

/// Whether `c` can stand in the scheme of a URL.
fn scheme_char(c: char) -> (res: bool)
    ensures
        res == is_scheme_char(c),
{
    ('a' <= c && c <= 'z') || ('A' <= c && c <= 'Z') || ('0' <= c && c <= '9') || c == '+' || c
        == '-' || c == '.'
}

/// Whether `typed` begins with a scheme and `://`.
pub fn has_scheme(typed: &str) -> (res: bool)
    ensures
        res == gives_scheme(typed@),
{
    let chars = text::chars_of(typed);
    let mark = text::chars_of("://");
    let mut k: usize = 0;
    while k < chars.len() && scheme_char(chars[k])
        invariant
            chars@ == typed@,
            k <= chars.len(),
            forall|i: int| 0 <= i < k ==> is_scheme_char(#[trigger] typed@[i]),
        decreases chars.len() - k,
    {
        k += 1;
    }
    let found = k > 0 && (('a' <= chars[0] && chars[0] <= 'z') || ('A' <= chars[0] && chars[0]
        <= 'Z')) && text::stands_at(&chars, k, &mark);
    proof {
        if found {
            assert(gives_scheme_of(typed@, k as int));
        } else if gives_scheme(typed@) {
            let j = choose|j: int| gives_scheme_of(typed@, j);
            lemma_scheme_end(typed@, j);
            assert(j == k) by {
                if j < k {
                    assert(is_scheme_char(typed@[j]));
                } else if k < j {
                    assert(is_scheme_char(typed@[k as int]));
                }
            }
        }
    }
    found
}

/// The text to parse for a typed input, with an `https://` scheme added if none was given. There
/// is none for a blank input.
pub fn candidate_url(input: &str) -> (res: Option<String>)
    ensures
        text_of(res) == candidate(input@),
{
    let typed = text::trim(input);
    if typed.is_empty() {
        return None;
    }
    if has_scheme(typed) {
        Some(typed.to_owned())
    } else {
        Some(text::join("https://", typed))
    }
}

/// Keeps a parsed URL if it is an `http` or `https` URL whose host is an IP address or a domain
/// name that looks real.
pub fn screen_url(parsed: Option<SiteUrl>) -> (res: Option<SiteUrl>)
    ensures
        url_of(res) == screened(url_of(parsed)),
{
    let url = match parsed {
        Some(url) => url,
        None => return None,
    };
    let host_looks_real = match &url.host {
        Some(SiteHost::Domain(name)) => domain::domain_looks_real(name.as_str()),
        Some(_) => true,
        None => false,
    };
    let is_http = text::same(url.scheme.as_str(), "http") || text::same(
        url.scheme.as_str(),
        "https",
    );
    if is_http && host_looks_real {
        Some(url)
    } else {
        None
    }
}

/// Parses a typed input as a site URL. Returns `None` if it is no absolute `http` or `https` URL
/// with a host that looks real.
pub fn parse_site_url(input: &str) -> (res: Option<SiteUrl>)
    ensures
        url_of(res) == site_url(input@),
        res matches Some(url) ==> url@.is_site() && url@.hosts_agree() && url@.host_is_plain()
            && url@.text_is_plain(),
        trimmed(input@).len() == 0 || trimmed(input@) == "https://"@ ==> res is None,
{
    proof {
        if trimmed(input@) == "https://"@ {
            lemma_https_gives_scheme(seq![]);
            assert("https://"@ + Seq::<char>::empty() =~= "https://"@);
        }
    }
    match candidate_url(input) {
        Some(text) => screen_url(parse_url(text.as_str())),
        None => None,
    }
}

/// Right behind a scheme stands a colon, which no scheme holds.
proof fn lemma_scheme_end(t: Seq<char>, k: int)
    requires
        gives_scheme_of(t, k),
    ensures
        k < t.len(),
        t[k] == ':',
{
    reveal_strlit("://");
    assert(t.skip(k).take(3)[0] == t[k]);
}

/// A text that begins with `https://` gives a scheme.
proof fn lemma_https_gives_scheme(rest: Seq<char>)
    ensures
        "https://"@.len() == 8,
        gives_scheme("https://"@ + rest),
{
    reveal_strlit("https://");
    reveal_strlit("://");
    let full = "https://"@ + rest;
    assert(full.skip(5).take(3) =~= "://"@);
    assert(gives_scheme_of(full, 5));
}

/// White space around an input makes no difference.
pub proof fn law_white_space_is_ignored(input: Seq<char>)
    ensures
        site_url(trimmed(input)) == site_url(input),
{
    text::lemma_trimmed(input);
}

/// A blank input stands for no URL.
pub proof fn law_blank_is_no_url(input: Seq<char>)
    requires
        forall|i: int| 0 <= i < input.len() ==> is_white_space(#[trigger] input[i]),
    ensures
        site_url(input) is None,
{
    let none: Seq<char> = seq![];
    assert(input + none + none =~= input);
    text::lemma_trimmed_between(input, none, none);
}

/// An input without a scheme stands for the same URL as with `https://` in front. (A blank input
/// stands for no URL, and neither does `https://` alone: see `parse_site_url`.)
pub proof fn law_https_is_assumed(input: Seq<char>)
    requires
        trimmed(input).len() > 0,
        !gives_scheme(trimmed(input)),
    ensures
        candidate(input) == Some("https://"@ + trimmed(input)),
        candidate("https://"@ + trimmed(input)) == Some("https://"@ + trimmed(input)),
        site_url(input) == site_url("https://"@ + trimmed(input)),
{
    reveal_strlit("https://");
    let typed = trimmed(input);
    let full = "https://"@ + typed;
    text::lemma_trimmed(input);
    lemma_https_gives_scheme(typed);
    let none: Seq<char> = seq![];
    assert(none + full + none =~= full);
    assert(full.first() == 'h');
    assert(full.last() == typed.last());
    text::lemma_trimmed_between(none, full, none);
}

/// Whatever is parsed for an input gives a scheme.
pub proof fn law_candidate_gives_scheme(input: Seq<char>)
    ensures
        candidate(input) matches Some(text) ==> gives_scheme(text),
{
    lemma_https_gives_scheme(trimmed(input));
}

/// The URL that `parse_site_url` returned, written out, goes to the parser as it is; if the parser
/// reads it back as the same URL, it is accepted again, unchanged.
pub proof fn law_written_url_is_parsed_again(url: UrlView)
    requires
        url.is_site(),
        url.text_is_plain(),
    ensures
        candidate(url.text) == Some(url.text),
        url_parse(url.text) == Some(url) ==> site_url(url.text) == Some(url),
{
    reveal_strlit("http");
    reveal_strlit("https");
    reveal_strlit("://");
    let t = url.text;
    let n = url.scheme.len() as int;
    let head = url.scheme + "://"@;
    let none: Seq<char> = seq![];
    assert forall|i: int| 0 <= i < head.len() implies t[i] == #[trigger] head[i] by {
        assert(t.take(head.len() as int)[i] == t[i]);
    }
    assert(none + t + none =~= t);
    text::lemma_trimmed_between(none, t, none);
    assert(t[0] == head[0]);
    assert forall|i: int| 0 <= i < n implies is_scheme_char(#[trigger] t[i]) by {
        assert(t[i] == head[i]);
    }
    assert(t.skip(n).take(3) =~= "://"@) by {
        assert(t[n] == head[n] && t[n + 1] == head[n + 1] && t[n + 2] == head[n + 2]);
    }
    assert(gives_scheme_of(t, n));
}

/// Whatever an input stands for is an `http` or `https` URL with a host that looks real.
pub proof fn law_site_url_is_site(input: Seq<char>)
    ensures
        site_url(input) matches Some(url) ==> url.is_site(),
{
}

} // verus!
