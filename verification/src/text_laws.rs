//! Laws of the functions on texts and URLs, said of the results of calls and of nothing but
//! characters, words and positions.

use vstd::prelude::*;
use crate::domain::{
    domain_looks_real, double_dot, is_last_dot, law_looks_real_by_dots,
    law_scheme_is_stripped, law_white_space_is_stripped, looks_real, normalize_domain, scheme_len,
    tld_looks_real,
};
use crate::site_url::{
    candidate, candidate_url, gives_scheme, gives_scheme_of, has_scheme, parse_site_url,
    screen_url, url_parse, HostView, SiteHost, SiteUrl, UrlView,
};
use crate::text::{
    begins_in_any_case, begins_with, chars_of, decimal, drop_leading, is_white_space, join,
    lemma_drop_leading, lemma_drop_trailing, lemma_trimmed, lemma_trimmed_between, lower, same,
    starts_in_any_case,
    to_decimal, trim, trimmed, white,
};

verus! {

// ---- Words for the laws ----

/// Whether all of `s` is white space.
pub open spec fn blank(s: Seq<char>) -> bool {
    forall|i: int| 0 <= i < s.len() ==> is_white_space(#[trigger] s[i])
}

/// Whether `s` neither begins nor ends with white space.
pub open spec fn tight(s: Seq<char>) -> bool {
    s.len() > 0 ==> !is_white_space(s[0]) && !is_white_space(s[s.len() - 1])
}

/// Whether `c` is the letter `a` to `z` or `A` to `Z`.
pub open spec fn latin(c: char) -> bool {
    ('a' <= c && c <= 'z') || ('A' <= c && c <= 'Z')
}

/// Whether `s` spells `word`, where a small letter of `word` may stand as a capital in `s`.
pub open spec fn spells(s: Seq<char>, word: Seq<char>) -> bool {
    &&& s.len() == word.len()
    &&& forall|i: int|
        0 <= i < word.len() ==> (#[trigger] s[i]) == word[i] || ('a' <= word[i] && word[i] <= 'z'
            && s[i] as u32 + 32 == word[i] as u32)
}

/// Whether `s` is `https://` or `http://`, with small letters or capitals.
pub open spec fn web_scheme(s: Seq<char>) -> bool {
    spells(s, "https://"@) || spells(s, "http://"@)
}

/// Whether `s` begins with `https://` or `http://`, with small letters or capitals.
pub open spec fn web_scheme_in_front(s: Seq<char>) -> bool {
    (s.len() >= 8 && web_scheme(s.take(8))) || (s.len() >= 7 && web_scheme(s.take(7)))
}

/// Whether a name does not start with a dot, has no two dots side by side, and has two or more
/// letters and nothing else behind its last dot.
pub open spec fn plausible(name: Seq<char>) -> bool {
    &&& name.len() > 0 ==> name[0] != '.'
    &&& forall|i: int, j: int|
        0 <= i < name.len() && j == i + 1 && j < name.len() ==> !(#[trigger] name[i] == '.'
            && #[trigger] name[j] == '.')
    &&& exists|d: int|
        0 <= d < name.len() - 2 && #[trigger] name[d] == '.' && forall|k: int|
            d < k < name.len() ==> latin(#[trigger] name[k])
}

/// Whether the first `k` characters of `s` are a letter and then letters, digits, `+`, `-` and
/// `.`, with `://` right behind them.
pub open spec fn scheme_of(s: Seq<char>, k: int) -> bool {
    &&& 0 < k && k + 2 < s.len()
    &&& latin(s[0])
    &&& forall|i: int|
        0 <= i < k ==> latin(#[trigger] s[i]) || ('0' <= s[i] && s[i] <= '9') || s[i] == '+'
            || s[i] == '-' || s[i] == '.'
    &&& s[k] == ':' && s[k + 1] == '/' && s[k + 2] == '/'
}

/// Whether `s` begins with a URL scheme and `://`.
pub open spec fn scheme_in_front(s: Seq<char>) -> bool {
    exists|k: int| scheme_of(s, k)
}

/// What the digits of `s` count to, in decimal.
pub open spec fn count(s: Seq<char>) -> int
    decreases s.len(),
{
    if s.len() == 0 {
        0
    } else {
        count(s.drop_last()) * 10 + (s.last() as int - '0' as int)
    }
}

/// Whether `s` is a decimal number without leading zeros.
pub open spec fn numeral(s: Seq<char>) -> bool {
    &&& s.len() > 0
    &&& s.len() > 1 ==> s[0] != '0'
    &&& forall|i: int| 0 <= i < s.len() ==> '0' <= (#[trigger] s[i]) && s[i] <= '9'
}

/// Whether two optional texts are the same.
pub open spec fn same_text(a: Option<String>, b: Option<String>) -> bool {
    match (a, b) {
        (Some(s), Some(t)) => s@ == t@,
        (None, None) => true,
        _ => false,
    }
}

/// Whether two optional hosts are the same.
pub open spec fn same_host(a: Option<SiteHost>, b: Option<SiteHost>) -> bool {
    match (a, b) {
        (Some(SiteHost::Domain(s)), Some(SiteHost::Domain(t))) => s@ == t@,
        (Some(SiteHost::Ipv4), Some(SiteHost::Ipv4)) => true,
        (Some(SiteHost::Ipv6), Some(SiteHost::Ipv6)) => true,
        (None, None) => true,
        _ => false,
    }
}

/// Whether two URLs are the same in every part.
pub open spec fn same_url(a: SiteUrl, b: SiteUrl) -> bool {
    &&& a.text@ == b.text@
    &&& a.scheme@ == b.scheme@
    &&& same_host(a.host, b.host)
    &&& same_text(a.host_str, b.host_str)
}

/// Whether two optional URLs are the same.
pub open spec fn same_outcome(a: Option<SiteUrl>, b: Option<SiteUrl>) -> bool {
    match (a, b) {
        (Some(u), Some(v)) => same_url(u, v),
        (None, None) => true,
        _ => false,
    }
}

/// Whether a URL can be watched: `http` or `https`, and an IP address or a plausible name.
pub open spec fn watchable(url: SiteUrl) -> bool {
    &&& url.scheme@ == "http"@ || url.scheme@ == "https"@
    &&& match url.host {
        Some(SiteHost::Domain(name)) => plausible(name@),
        Some(SiteHost::Ipv4) => true,
        Some(SiteHost::Ipv6) => true,
        None => false,
    }
}

/// Whether a URL has exactly the parts that the parser found.
pub open spec fn holds(site: SiteUrl, parts: UrlView) -> bool {
    &&& site.text@ == parts.text
    &&& site.scheme@ == parts.scheme
    &&& match (site.host, parts.host) {
        (Some(SiteHost::Domain(name)), Some(HostView::Domain(found))) => name@ == found,
        (Some(SiteHost::Ipv4), Some(HostView::Ipv4)) => true,
        (Some(SiteHost::Ipv6), Some(HostView::Ipv6)) => true,
        (None, None) => true,
        _ => false,
    }
    &&& match (site.host_str, parts.host_str) {
        (Some(name), Some(found)) => name@ == found,
        (None, None) => true,
        _ => false,
    }
}

// ---- Numbers and texts ----

/// A written number counts to the number, in digits alone and without leading zeros.
pub proof fn lemma_decimal(n: nat)
    ensures
        count(decimal(n)) == n,
        numeral(decimal(n)),
        n > 0 ==> decimal(n)[0] != '0',
    decreases n,
{
    let s = decimal(n);
    if n < 10 {
        assert(s.drop_last() =~= seq![]);
        assert(count(seq![]) == 0);
        assert(s.last() as int == '0' as int + n);
    } else {
        lemma_decimal(n / 10);
        assert(s.drop_last() =~= decimal(n / 10));
        assert(s.last() as int == '0' as int + n % 10);
        assert forall|i: int| 0 <= i < s.len() implies '0' <= (#[trigger] s[i]) && s[i]
            <= '9' by {
            if i < s.len() - 1 {
                assert(s[i] == decimal(n / 10)[i]);
            }
        }
        assert(s[0] == decimal(n / 10)[0]);
    }
}

/// `to_decimal` writes a number in digits that count to it, without leading zeros.
pub proof fn law_to_decimal(n: u64, res: String)
    requires
        call_ensures(to_decimal, (n,), res),
    ensures
        count(res@) == n,
        numeral(res@),
{
    lemma_decimal(n as nat);
}

/// Trimming leaves nothing exactly of a blank text.
pub proof fn lemma_blank(s: Seq<char>)
    ensures
        trimmed(s).len() == 0 <==> blank(s),
{
    let none: Seq<char> = seq![];
    let inner = drop_leading(s, white());
    lemma_drop_leading(s, white());
    lemma_drop_trailing(inner, white());
    if blank(s) {
        assert(s + none + none =~= s);
        lemma_trimmed_between(s, none, none);
    }
    if trimmed(s).len() == 0 {
        assert forall|i: int| 0 <= i < s.len() implies is_white_space(#[trigger] s[i]) by {
            let k = s.len() - inner.len();
            if i < k {
                assert(white()(s[i]));
            } else {
                assert(inner[i - k] == s[i]);
                assert(white()(inner[i - k]));
            }
        }
    }
}

/// `trim` gives back a text from between any white space.
pub proof fn law_trim(s: &str, res: &str, before: Seq<char>, core: Seq<char>, after: Seq<char>)
    requires
        call_ensures(trim, (s,), res),
        s@ == before + core + after,
        blank(before),
        blank(after),
        tight(core),
    ensures
        res@ == core,
{
    lemma_trimmed_between(before, core, after);
}

/// `chars_of` gives the characters of a text, one by one.
pub proof fn law_chars_of(s: &str, res: Vec<char>)
    requires
        call_ensures(chars_of, (s,), res),
    ensures
        res@.len() == s@.len(),
        forall|i: int| 0 <= i < s@.len() ==> #[trigger] res@[i] == s@[i],
{
}

/// `join` gives the characters of the first text and then those of the second.
pub proof fn law_join(a: &str, b: &str, res: String)
    requires
        call_ensures(join, (a, b), res),
    ensures
        res@.len() == a@.len() + b@.len(),
        forall|i: int| 0 <= i < a@.len() ==> #[trigger] res@[i] == a@[i],
        forall|i: int| 0 <= i < b@.len() ==> res@[a@.len() + i] == #[trigger] b@[i],
{
}

/// `same` compares texts character by character.
pub proof fn law_same(a: &str, b: &str, res: bool)
    requires
        call_ensures(same, (a, b), res),
    ensures
        res <==> a@.len() == b@.len() && forall|i: int|
            0 <= i < a@.len() ==> #[trigger] a@[i] == b@[i],
{
    if a@.len() == b@.len() && forall|i: int| 0 <= i < a@.len() ==> #[trigger] a@[i] == b@[i] {
        assert(a@ =~= b@);
    }
}

/// A letter in lower case.
proof fn lemma_lower(c: char)
    ensures
        'A' <= c && c <= 'Z' ==> lower(c) as u32 == c as u32 + 32,
        !('A' <= c && c <= 'Z') ==> lower(c) == c,
{
}

/// `starts_in_any_case` finds a word without capitals at the start of a text, in small letters or
/// capitals.
pub proof fn law_starts_in_any_case(s: &str, word: &str, res: bool)
    requires
        call_ensures(starts_in_any_case, (s, word), res),
        forall|i: int| 0 <= i < word@.len() ==> !('A' <= (#[trigger] word@[i]) && word@[i] <= 'Z'),
    ensures
        res <==> word@.len() <= s@.len() && spells(s@.take(word@.len() as int), word@),
{
    lemma_spells(s@, word@);
}

/// The two ways to say that a text begins with a word in any case.
proof fn lemma_spells(s: Seq<char>, word: Seq<char>)
    requires
        forall|i: int| 0 <= i < word.len() ==> !('A' <= (#[trigger] word[i]) && word[i] <= 'Z'),
    ensures
        begins_in_any_case(s, word) <==> word.len() <= s.len() && spells(
            s.take(word.len() as int),
            word,
        ),
{
    if word.len() <= s.len() {
        let t = s.take(word.len() as int);
        assert forall|i: int| 0 <= i < word.len() implies (lower(#[trigger] s[i]) == word[i] <==> (
        t[i] == word[i] || ('a' <= word[i] && word[i] <= 'z' && t[i] as u32 + 32
            == word[i] as u32))) by {
            lemma_lower(s[i]);
        }
        if spells(t, word) {
            assert forall|i: int| 0 <= i < word.len() implies lower(#[trigger] s[i])
                == word[i] by {
                assert(t[i] == s[i]);
            }
        }
        if begins_in_any_case(s, word) {
            assert forall|i: int| 0 <= i < word.len() implies (#[trigger] t[i]) == word[i] || ('a'
                <= word[i] && word[i] <= 'z' && t[i] as u32 + 32 == word[i] as u32) by {
                assert(lower(s[i]) == word[i]);
            }
        }
    }
}

// ---- Domains ----

/// What the two web schemes look like.
proof fn lemma_web_schemes(s: Seq<char>)
    ensures
        "https://"@ =~= seq!['h', 't', 't', 'p', 's', ':', '/', '/'],
        "http://"@ =~= seq!['h', 't', 't', 'p', ':', '/', '/'],
        scheme_len(s) > 0 <==> web_scheme_in_front(s),
        web_scheme(s) <==> scheme_len(s) > 0 && scheme_len(s) == s.len(),
{
    reveal_strlit("https://");
    reveal_strlit("http://");
    lemma_spells(s, "https://"@);
    lemma_spells(s, "http://"@);
    assert(s.take(s.len() as int) =~= s);
    if s.len() >= 7 && spells(s.take(7), "http://"@) {
        assert(s.take(7)[4] == s[4]);
        assert(s[4] == ':');
        if s.len() >= 8 && spells(s.take(8), "https://"@) {
            assert(s.take(8)[4] == s[4]);
        }
    }
}

/// `normalize_domain` gives a bare domain for every input: no white space at its ends, no web
/// scheme in front, no slash at its end.
pub proof fn law_normalize_gives_bare_domain(input: &str, res: String)
    requires
        call_ensures(normalize_domain, (input,), res),
    ensures
        tight(res@),
        !web_scheme_in_front(res@),
        res@.len() > 0 ==> res@[res@.len() - 1] != '/',
{
    lemma_web_schemes(res@);
    lemma_trimmed(res@);
}

/// `normalize_domain` keeps every text that is a bare domain already, whatever its name.
pub proof fn law_normalize_keeps_bare_domain(input: &str, res: String)
    requires
        call_ensures(normalize_domain, (input,), res),
        tight(input@),
        !web_scheme_in_front(input@),
        input@.len() > 0 ==> input@[input@.len() - 1] != '/',
    ensures
        res@ == input@,
{
    let none: Seq<char> = seq![];
    assert(none + input@ + none =~= input@);
    lemma_trimmed_between(none, input@, none);
    lemma_web_schemes(input@);
}

/// `normalize_domain` gives the same for a text with and without white space around it.
pub proof fn law_normalize_ignores_white_space(
    plain: &str,
    spaced: &str,
    res_plain: String,
    res_spaced: String,
    before: Seq<char>,
    after: Seq<char>,
)
    requires
        call_ensures(normalize_domain, (plain,), res_plain),
        call_ensures(normalize_domain, (spaced,), res_spaced),
        spaced@ == before + plain@ + after,
        blank(before),
        blank(after),
    ensures
        res_spaced@ == res_plain@,
{
    law_white_space_is_stripped(before, plain@, after);
}

/// `normalize_domain` gives the same for a text with and without a web scheme in front.
pub proof fn law_normalize_ignores_scheme(
    plain: &str,
    prefixed: &str,
    res_plain: String,
    res_prefixed: String,
    scheme: Seq<char>,
)
    requires
        call_ensures(normalize_domain, (plain,), res_plain),
        call_ensures(normalize_domain, (prefixed,), res_prefixed),
        web_scheme(scheme),
        prefixed@ == scheme + plain@,
    ensures
        res_prefixed@ == res_plain@,
{
    lemma_web_schemes(scheme);
    law_scheme_is_stripped(scheme, plain@);
}

/// `normalize_domain` gives the same for a text with and without a slash at its end, unless the
/// slash completes a web scheme.
pub proof fn law_normalize_ignores_slash(
    plain: &str,
    slashed: &str,
    res_plain: String,
    res_slashed: String,
)
    requires
        call_ensures(normalize_domain, (plain,), res_plain),
        call_ensures(normalize_domain, (slashed,), res_slashed),
        slashed@ == plain@.push('/'),
        tight(slashed@),
        !web_scheme_in_front(slashed@),
    ensures
        res_slashed@ == res_plain@,
{
    let none: Seq<char> = seq![];
    assert(none + slashed@ + none =~= slashed@);
    lemma_trimmed_between(none, slashed@, none);
    lemma_web_schemes(slashed@);
    assert(slashed@.drop_last() =~= plain@);
}

/// The two ways to say that a domain looks real.
proof fn lemma_plausible(name: Seq<char>)
    ensures
        looks_real(name) <==> plausible(name),
{
    law_looks_real_by_dots(name);
    if looks_real(name) {
        let d = choose|d: int|
            #[trigger] is_last_dot(name, d) && tld_looks_real(name.skip(d + 1));
        assert(name[d] == '.');
        assert forall|k: int| d < k < name.len() implies latin(#[trigger] name[k]) by {
            assert(name.skip(d + 1)[k - d - 1] == name[k]);
        }
        assert forall|i: int, j: int|
            0 <= i < name.len() && j == i + 1 && j < name.len() implies !(#[trigger] name[i] == '.'
            && #[trigger] name[j] == '.') by {
            assert(!double_dot(name, i));
        }
    }
    if plausible(name) {
        let d = choose|d: int|
            0 <= d < name.len() - 2 && #[trigger] name[d] == '.' && forall|k: int|
                d < k < name.len() ==> latin(#[trigger] name[k]);
        assert forall|k: int| d < k < name.len() implies name[k] != '.' by {
            assert(latin(name[k]));
        }
        assert(is_last_dot(name, d));
        assert forall|i: int| 0 <= i < name.skip(d + 1).len() implies latin(
            #[trigger] name.skip(d + 1)[i],
        ) by {
            assert(name.skip(d + 1)[i] == name[d + 1 + i]);
        }
        assert(tld_looks_real(name.skip(d + 1)));
        assert forall|i: int| !double_dot(name, i) by {
            if double_dot(name, i) {
                assert(name[i] == '.' && name[i + 1] == '.');
            }
        }
    }
}

/// `domain_looks_real` accepts exactly the names that do not start with a dot, have no two dots
/// side by side, and have two or more letters and nothing else behind their last dot.
pub proof fn law_domain_looks_real(domain: &str, res: bool)
    requires
        call_ensures(domain_looks_real, (domain,), res),
    ensures
        res <==> plausible(domain@),
{
    lemma_plausible(domain@);
}

// ---- URLs ----

/// The two ways to say that a text gives a scheme.
proof fn lemma_scheme_in_front(s: Seq<char>)
    ensures
        gives_scheme(s) <==> scheme_in_front(s),
{
    reveal_strlit("://");
    if gives_scheme(s) {
        let k = choose|k: int| gives_scheme_of(s, k);
        let mark = s.skip(k).take(3);
        assert(mark == "://"@);
        assert(mark[0] == s[k] && mark[1] == s[k + 1] && mark[2] == s[k + 2]);
        assert(scheme_of(s, k));
    }
    if scheme_in_front(s) {
        let k = choose|k: int| scheme_of(s, k);
        assert(s.skip(k).take(3) =~= "://"@);
        assert(begins_with(s.skip(k), "://"@));
        assert(gives_scheme_of(s, k));
    }
}

/// `has_scheme` finds exactly the texts that begin with a letter, then letters, digits, `+`, `-`
/// and `.`, then `://`.
pub proof fn law_has_scheme(typed: &str, res: bool)
    requires
        call_ensures(has_scheme, (typed,), res),
    ensures
        res <==> scheme_in_front(typed@),
{
    lemma_scheme_in_front(typed@);
}

/// What is parsed for a text with white space around it.
proof fn lemma_candidate(before: Seq<char>, core: Seq<char>, after: Seq<char>)
    requires
        blank(before),
        blank(after),
        tight(core),
    ensures
        candidate(before + core + after) == (if core.len() == 0 {
            None
        } else if scheme_in_front(core) {
            Some(core)
        } else {
            Some("https://"@ + core)
        }),
{
    lemma_trimmed_between(before, core, after);
    lemma_scheme_in_front(core);
}

/// `candidate_url` gives nothing for white space alone; else it gives the text without the white
/// space around it, with `https://` in front exactly where it begins with no scheme.
pub proof fn law_candidate_url(
    input: &str,
    res: Option<String>,
    before: Seq<char>,
    core: Seq<char>,
    after: Seq<char>,
)
    requires
        call_ensures(candidate_url, (input,), res),
        input@ == before + core + after,
        blank(before),
        blank(after),
        tight(core),
    ensures
        core.len() == 0 <==> res is None,
        core.len() > 0 && scheme_in_front(core) ==> res->0@ == core,
        core.len() > 0 && !scheme_in_front(core) ==> res->0@ == "https://"@ + core,
{
    lemma_candidate(before, core, after);
}

/// `screen_url` keeps a parsed URL, unchanged in every part, exactly if its scheme is `http` or
/// `https` and its host is an IP address or a plausible name.
pub proof fn law_screen_url(parsed: Option<SiteUrl>, res: Option<SiteUrl>)
    requires
        call_ensures(screen_url, (parsed,), res),
    ensures
        parsed is None ==> res is None,
        parsed matches Some(url) ==> (res is Some <==> watchable(url)),
        parsed matches Some(url) ==> (res matches Some(kept) ==> same_url(kept, url)),
{
    if let Some(url) = parsed {
        if let Some(SiteHost::Domain(name)) = url.host {
            lemma_plausible(name@);
        }
    }
}

/// `parse_site_url` gives what the parser makes of the typed text, with `https://` in front where
/// it begins with no scheme, exactly if that can be watched; it gives nothing for white space
/// alone.
pub proof fn law_parse_site_url(
    input: &str,
    res: Option<SiteUrl>,
    before: Seq<char>,
    core: Seq<char>,
    after: Seq<char>,
)
    requires
        call_ensures(parse_site_url, (input,), res),
        input@ == before + core + after,
        blank(before),
        blank(after),
        tight(core),
    ensures
        core.len() == 0 ==> res is None,
        res matches Some(url) ==> watchable(url),
        core.len() > 0 ==> ({
            let text = if scheme_in_front(core) {
                core
            } else {
                "https://"@ + core
            };
            match url_parse(text) {
                None => res is None,
                Some(url) => {
                    let http = url.scheme == "http"@ || url.scheme == "https"@;
                    let looks = match url.host {
                        Some(HostView::Domain(name)) => plausible(name),
                        Some(HostView::Ipv4) => true,
                        Some(HostView::Ipv6) => true,
                        None => false,
                    };
                    &&& res is Some <==> http && looks
                    &&& res matches Some(site) ==> holds(site, url)
                },
            }
        }),
{
    lemma_candidate(before, core, after);
    if let Some(url) = res {
        if let Some(SiteHost::Domain(name)) = url.host {
            lemma_plausible(name@);
        }
    }
    if core.len() > 0 {
        let text = if scheme_in_front(core) {
            core
        } else {
            "https://"@ + core
        };
        if let Some(url) = url_parse(text) {
            if let Some(HostView::Domain(name)) = url.host {
                lemma_plausible(name);
            }
        }
    }
}

/// A site URL that `parse_site_url` gives has a host, and the text of the host holds neither
/// slashes nor white space and is the domain name where there is one.
pub proof fn law_parsed_url_has_host(input: &str, res: Option<SiteUrl>)
    requires
        call_ensures(parse_site_url, (input,), res),
    ensures
        res matches Some(url) ==> {
            &&& url.host_str is Some
            &&& url.host matches Some(SiteHost::Domain(name)) ==> name@ == url.host_str->0@
            &&& forall|i: int|
                0 <= i < url.host_str->0@.len() ==> (#[trigger] url.host_str->0@[i]) != '/'
                    && !is_white_space(url.host_str->0@[i])
        },
{
    if let Some(url) = res {
        assert(url@.host is Some);
        let text = url.host_str->0@;
        assert(url@.host_str == Some(text));
        assert(url@.host_is_plain());
        assert forall|i: int| 0 <= i < text.len() implies (#[trigger] text[i]) != '/'
            && !is_white_space(text[i]) by {
            assert(url@.host_str->0[i] == text[i]);
        }
        if let Some(SiteHost::Domain(name)) = url.host {
            assert(url@.host == Some(HostView::Domain(name@)));
        }
    }
}

/// `parse_site_url` gives the same for a text with and without white space around it, and with
/// and without `https://` in front where it begins with no scheme.
pub proof fn law_parse_ignores_how_it_was_typed(
    plain: &str,
    typed: &str,
    res_plain: Option<SiteUrl>,
    res_typed: Option<SiteUrl>,
    before: Seq<char>,
    after: Seq<char>,
)
    requires
        call_ensures(parse_site_url, (plain,), res_plain),
        call_ensures(parse_site_url, (typed,), res_typed),
        tight(plain@),
        blank(before),
        blank(after),
        typed@ == before + plain@ + after || (!scheme_in_front(plain@) && typed@ == before + (
        "https://"@ + plain@) + after),
    ensures
        same_outcome(res_plain, res_typed),
{
    reveal_strlit("https://");
    let none: Seq<char> = seq![];
    let full = "https://"@ + plain@;
    assert(none + plain@ + none =~= plain@);
    lemma_candidate(none, plain@, none);
    if typed@ == before + plain@ + after {
        lemma_candidate(before, plain@, after);
    } else {
        assert(full[0] == 'h');
        if plain@.len() > 0 {
            assert(full[full.len() - 1] == plain@[plain@.len() - 1]);
        } else {
            assert(full =~= "https://"@);
        }
        lemma_candidate(before, full, after);
        lemma_trimmed_between(before, full, after);
        assert(scheme_of(full, 5));
    }
}

} // verus!
