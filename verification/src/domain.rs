//! Domain names as the user types them and as the applet stores them.

use vstd::prelude::*;
use crate::text;
use crate::text::{begins_in_any_case, drop_trailing, lower, trimmed, white};

verus! {

/// The length of the scheme that `s` begins with, `https://` or `http://` in any letter case, or 0
/// where it begins with neither.
pub open spec fn scheme_len(s: Seq<char>) -> nat {
    if begins_in_any_case(s, "https://"@) {
        "https://"@.len()
    } else if begins_in_any_case(s, "http://"@) {
        "http://"@.len()
    } else {
        0
    }
}

/// The bare domain behind a typed or stored entry: what is left once the white space around it,
/// the schemes that it begins with and the slashes that it ends with are gone.
pub open spec fn normalized(s: Seq<char>) -> Seq<char>
    decreases s.len(),
{
    proof {
        text::lemma_trimmed(s);
    }
    let t = trimmed(s);
    if scheme_len(t) > 0 {
        normalized(t.skip(scheme_len(t) as int))
    } else if t.len() > 0 && t.last() == '/' {
        normalized(t.drop_last())
    } else {
        t
    }
}

/// A bare domain: no white space around it, no scheme in front, no slash at its end.
pub open spec fn is_bare(d: Seq<char>) -> bool {
    &&& trimmed(d) == d
    &&& scheme_len(d) == 0
    &&& d.len() > 0 ==> d.last() != '/'
}

/// The texts between the dots of `s`, in order. A text without a dot is its own single label.
pub open spec fn labels(s: Seq<char>) -> Seq<Seq<char>>
    decreases s.len(),
{
    if s.len() == 0 {
        seq![s]
    } else {
        let before = labels(s.drop_last());
        if s.last() == '.' {
            before.push(seq![])
        } else {
            before.drop_last().push(before.last().push(s.last()))
        }
    }
}

/// Whether `c` is a letter from `a` to `z`, in either case.
pub open spec fn is_letter(c: char) -> bool {
    ('a' <= c && c <= 'z') || ('A' <= c && c <= 'Z')
}

/// Whether `s` can be a top-level domain: two letters or more.
pub open spec fn tld_looks_real(s: Seq<char>) -> bool {
    s.len() >= 2 && forall|i: int| 0 <= i < s.len() ==> is_letter(#[trigger] s[i])
}

/// Whether `s` has at least two labels, none of them empty, the last one fit for a top-level
/// domain.
pub open spec fn looks_real(s: Seq<char>) -> bool {
    let parts = labels(s);
    &&& parts.len() >= 2
    &&& forall|i: int| 0 <= i < parts.len() ==> (#[trigger] parts[i]).len() > 0
    &&& tld_looks_real(parts.last())
}

/// The length of the scheme that `s` begins with, or 0 where it begins with none.
fn scheme_length(s: &str) -> (res: usize)
    ensures
        res == scheme_len(s@),
{
    proof {
        lemma_schemes();
    }
    if text::starts_in_any_case(s, "https://") {
        8
    } else if text::starts_in_any_case(s, "http://") {
        7
    } else {
        0
    }
}

/// Strips the surrounding white space, the leading URL schemes and the trailing slashes of
/// `input`, so that stored entries are bare domains regardless of how they were typed.
pub fn normalize_domain(input: &str) -> (res: String)
    ensures
        res@ == normalized(input@),
        is_bare(res@),
{
    proof {
        law_normalized_is_bare(input@);
    }
    let mut rest = input;
    loop
        invariant
            normalized(rest@) == normalized(input@),
            is_bare(normalized(input@)),
        decreases rest@.len(),
    {
        let bare = text::trim(rest);
        proof {
            text::lemma_trimmed(rest@);
            lemma_schemes();
        }
        let end: usize = bare.unicode_len();
        let scheme: usize = scheme_length(bare);
        if scheme > 0 {
            assert(bare@.subrange(scheme as int, end as int) =~= bare@.skip(scheme as int));
            rest = bare.substring_char(scheme, end);
        } else if end > 0 && bare.get_char(end - 1) == '/' {
            assert(bare@.subrange(0, end - 1) =~= bare@.drop_last());
            rest = bare.substring_char(0, end - 1);
        } else {
            return bare.to_owned();
        }
    }
}

/// The texts between the dots of `domain`, in order.
fn split_labels(domain: &str) -> (res: Vec<Vec<char>>)
    ensures
        res@.len() == labels(domain@).len() > 0,
        forall|i: int| 0 <= i < res@.len() ==> (#[trigger] res@[i])@ == labels(domain@)[i],
{
    let chars = text::chars_of(domain);
    let mut done: Vec<Vec<char>> = Vec::new();
    let mut current: Vec<char> = Vec::new();
    let mut i: usize = 0;
    while i < chars.len()
        invariant
            chars@ == domain@,
            i <= chars.len(),
            labels(domain@.take(i as int)).len() == done@.len() + 1,
            labels(domain@.take(i as int)).last() == current@,
            forall|k: int|
                0 <= k < done@.len() ==> (#[trigger] done@[k])@ == labels(
                    domain@.take(i as int),
                )[k],
        decreases chars.len() - i,
    {
        assert(domain@.take(i + 1).drop_last() =~= domain@.take(i as int));
        if chars[i] == '.' {
            done.push(current);
            current = Vec::new();
        } else {
            current.push(chars[i]);
        }
        i += 1;
    }
    assert(domain@.take(chars.len() as int) =~= domain@);
    done.push(current);
    done
}

/// Tests whether `domain` has at least two non-empty labels separated by dots and a top-level
/// domain of two letters or more. No list of existing top-level domains is consulted.
pub fn domain_looks_real(domain: &str) -> (res: bool)
    ensures
        res == looks_real(domain@),
{
    let parts = split_labels(domain);
    if parts.len() < 2 {
        return false;
    }
    let mut i: usize = 0;
    while i < parts.len()
        invariant
            parts@.len() == labels(domain@).len(),
            forall|k: int| 0 <= k < parts@.len() ==> (#[trigger] parts@[k])@ == labels(domain@)[k],
            forall|k: int| 0 <= k < i ==> (#[trigger] labels(domain@)[k]).len() > 0,
        decreases parts.len() - i,
    {
        if parts[i].len() == 0 {
            assert(labels(domain@)[i as int].len() == 0);
            return false;
        }
        i += 1;
    }
    let tld = &parts[parts.len() - 1];
    let ghost last = labels(domain@).last();
    if tld.len() < 2 {
        return false;
    }
    let mut k: usize = 0;
    while k < tld.len()
        invariant
            tld@ == last,
            last == labels(domain@).last(),
            last.len() >= 2,
            forall|j: int| 0 <= j < k ==> is_letter(#[trigger] last[j]),
        decreases tld.len() - k,
    {
        let c = tld[k];
        if !(('a' <= c && c <= 'z') || ('A' <= c && c <= 'Z')) {
            assert(!is_letter(last[k as int]));
            return false;
        }
        k += 1;
    }
    true
}

/// What the two schemes look like, character by character.
proof fn lemma_schemes()
    ensures
        "https://"@ =~= seq!['h', 't', 't', 'p', 's', ':', '/', '/'],
        "http://"@ =~= seq!['h', 't', 't', 'p', ':', '/', '/'],
{
    reveal_strlit("https://");
    reveal_strlit("http://");
}

/// Whatever was typed, the stored entry is a bare domain.
pub proof fn law_normalized_is_bare(s: Seq<char>)
    ensures
        is_bare(normalized(s)),
    decreases s.len(),
{
    text::lemma_trimmed(s);
    let t = trimmed(s);
    if scheme_len(t) > 0 {
        law_normalized_is_bare(t.skip(scheme_len(t) as int));
    } else if t.len() > 0 && t.last() == '/' {
        law_normalized_is_bare(t.drop_last());
    }
}

/// A bare domain is stored as it is.
pub proof fn law_bare_domain_is_kept(d: Seq<char>)
    requires
        is_bare(d),
    ensures
        normalized(d) == d,
{
}

/// Normalizing a stored entry again changes nothing.
pub proof fn law_normalized_twice(s: Seq<char>)
    ensures
        normalized(normalized(s)) == normalized(s),
{
    law_normalized_is_bare(s);
    law_bare_domain_is_kept(normalized(s));
}

/// White space around an entry makes no difference.
pub proof fn law_white_space_is_stripped(before: Seq<char>, s: Seq<char>, after: Seq<char>)
    requires
        forall|i: int| 0 <= i < before.len() ==> text::is_white_space(#[trigger] before[i]),
        forall|i: int| 0 <= i < after.len() ==> text::is_white_space(#[trigger] after[i]),
    ensures
        normalized(before + s + after) == normalized(s),
{
    text::lemma_trimmed_around(before, s, after);
}

/// Whether `s` is `https://` or `http://`, in any letter case, and nothing more.
pub open spec fn is_scheme(s: Seq<char>) -> bool {
    scheme_len(s) > 0 && scheme_len(s) == s.len()
}

/// A scheme in front of an entry makes no difference.
pub proof fn law_scheme_is_stripped(scheme: Seq<char>, s: Seq<char>)
    requires
        is_scheme(scheme),
    ensures
        normalized(scheme + s) == normalized(s),
{
    lemma_schemes();
    let n = scheme.len();
    let none: Seq<char> = seq![];
    // The white space at the end of `s` goes first.
    let core = drop_trailing(s, white());
    let run = s.skip(core.len() as int);
    text::lemma_drop_trailing(s, white());
    assert(s =~= core + run);
    assert forall|i: int| 0 <= i < run.len() implies text::is_white_space(#[trigger] run[i]) by {
        assert(white()(s[core.len() + i]));
    }
    let full = scheme + core;
    assert(lower(scheme[0]) == 'h');
    assert(lower(scheme[n - 1]) == '/');
    assert(full.first() == scheme[0]);
    assert(!text::is_white_space(full.first()));
    if core.len() > 0 {
        assert(full.last() == core.last());
        assert(!white()(core.last()));
    } else {
        assert(full.last() == scheme[n - 1]);
    }
    assert(scheme + s =~= none + full + run);
    text::lemma_trimmed_between(none, full, run);
    assert(none + core + run =~= s);
    text::lemma_trimmed_around(none, core, run);
    // Then the scheme.
    assert(scheme_len(full) == n) by {
        if n == 8 {
            assert forall|i: int| 0 <= i < 8 implies lower(#[trigger] full[i]) == "https://"@[i] by {
                assert(full[i] == scheme[i]);
            }
        } else {
            assert forall|i: int| 0 <= i < 7 implies lower(#[trigger] full[i]) == "http://"@[i] by {
                assert(full[i] == scheme[i]);
            }
            assert(lower(full[4]) == ':');
        }
    }
    assert(full.skip(n as int) =~= core);
    assert(trimmed(scheme + s) == full);
    assert(normalized(scheme + s) == normalized(core));
    assert(trimmed(core) == trimmed(s));
    assert(normalized(core) == normalized(s));
}

/// Several texts, one after the other.
pub open spec fn in_a_row(parts: Seq<Seq<char>>) -> Seq<char>
    decreases parts.len(),
{
    if parts.len() == 0 {
        seq![]
    } else {
        parts.first() + in_a_row(parts.drop_first())
    }
}

/// Slashes behind a bare domain make no difference, unless they complete a scheme.
proof fn lemma_slashes_are_stripped(d: Seq<char>, slashes: Seq<char>)
    requires
        is_bare(d),
        forall|i: int| 0 <= i < slashes.len() ==> #[trigger] slashes[i] == '/',
        scheme_len(d + slashes) == 0,
    ensures
        normalized(d + slashes) == d,
    decreases slashes.len(),
{
    let full = d + slashes;
    if slashes.len() == 0 {
        assert(full =~= d);
        law_bare_domain_is_kept(d);
    } else {
        let none: Seq<char> = seq![];
        text::lemma_trimmed(d);
        if d.len() > 0 {
            assert(full.first() == d.first());
        } else {
            assert(full.first() == slashes[0]);
        }
        assert(full.last() == slashes[slashes.len() - 1]);
        assert(none + full + none =~= full);
        text::lemma_trimmed_between(none, full, none);
        let shorter = d + slashes.drop_last();
        assert(full.drop_last() =~= shorter);
        assert(scheme_len(shorter) == 0) by {
            lemma_schemes();
            assert forall|i: int| 0 <= i < shorter.len() implies #[trigger] shorter[i]
                == full[i] by {}
            assert(begins_in_any_case(shorter, "https://"@) ==> begins_in_any_case(
                full,
                "https://"@,
            )) by {
                if begins_in_any_case(shorter, "https://"@) {
                    assert forall|i: int| 0 <= i < 8 implies lower(#[trigger] full[i])
                        == "https://"@[i] by {
                        assert(full[i] == shorter[i]);
                    }
                }
            }
            assert(begins_in_any_case(shorter, "http://"@) ==> begins_in_any_case(
                full,
                "http://"@,
            )) by {
                if begins_in_any_case(shorter, "http://"@) {
                    assert forall|i: int| 0 <= i < 7 implies lower(#[trigger] full[i])
                        == "http://"@[i] by {
                        assert(full[i] == shorter[i]);
                    }
                }
            }
        }
        lemma_slashes_are_stripped(d, slashes.drop_last());
    }
}

/// However a bare domain is typed, with any run of schemes in front, any trailing slashes and any
/// surrounding white space, the bare domain is stored. The last condition leaves out the texts
/// `http:` and `https:`, which two slashes turn into a scheme.
pub proof fn law_typed_domain_is_normalized(
    d: Seq<char>,
    before: Seq<char>,
    schemes: Seq<Seq<char>>,
    slashes: Seq<char>,
    after: Seq<char>,
)
    requires
        is_bare(d),
        forall|i: int| 0 <= i < before.len() ==> text::is_white_space(#[trigger] before[i]),
        forall|i: int| 0 <= i < after.len() ==> text::is_white_space(#[trigger] after[i]),
        forall|i: int| 0 <= i < schemes.len() ==> is_scheme(#[trigger] schemes[i]),
        forall|i: int| 0 <= i < slashes.len() ==> #[trigger] slashes[i] == '/',
        scheme_len(d + slashes) == 0,
    ensures
        normalized(before + (in_a_row(schemes) + (d + slashes)) + after) == d,
    decreases schemes.len(),
{
    let core = in_a_row(schemes) + (d + slashes);
    law_white_space_is_stripped(before, core, after);
    if schemes.len() == 0 {
        assert(core =~= d + slashes);
        lemma_slashes_are_stripped(d, slashes);
    } else {
        let none: Seq<char> = seq![];
        let rest = in_a_row(schemes.drop_first()) + (d + slashes);
        assert(is_scheme(schemes[0]));
        assert forall|i: int| 0 <= i < schemes.drop_first().len() implies is_scheme(
            #[trigger] schemes.drop_first()[i],
        ) by {
            assert(schemes.drop_first()[i] == schemes[i + 1]);
        }
        law_typed_domain_is_normalized(d, none, schemes.drop_first(), slashes, none);
        assert(none + rest + none =~= rest);
        assert(core =~= schemes[0] + rest);
        law_scheme_is_stripped(schemes[0], rest);
    }
}

/// The labels put together again with dots between them.
pub open spec fn joined(parts: Seq<Seq<char>>) -> Seq<char>
    decreases parts.len(),
{
    if parts.len() == 0 {
        seq![]
    } else if parts.len() == 1 {
        parts[0]
    } else {
        joined(parts.drop_last()).push('.') + parts.last()
    }
}

/// Splitting loses nothing: no label holds a dot, and the labels joined with dots are the text.
pub proof fn law_labels_split_at_dots(s: Seq<char>)
    ensures
        labels(s).len() > 0,
        joined(labels(s)) == s,
        forall|i: int| 0 <= i < labels(s).len() ==> !(#[trigger] labels(s)[i]).contains('.'),
    decreases s.len(),
{
    let parts = labels(s);
    if s.len() > 0 {
        let before = labels(s.drop_last());
        law_labels_split_at_dots(s.drop_last());
        assert(s =~= s.drop_last().push(s.last()));
        if s.last() == '.' {
            assert(parts.drop_last() =~= before);
            assert(joined(parts) =~= joined(before).push('.'));
        } else {
            assert(parts.drop_last() =~= before.drop_last());
            assert(joined(parts) =~= joined(before).push(s.last()));
            assert forall|i: int| 0 <= i < parts.len() implies !(#[trigger] parts[i]).contains(
                '.',
            ) by {
                if i < parts.len() - 1 {
                    assert(parts[i] == before[i]);
                } else {
                    assert(!before.last().contains('.'));
                    if parts[i].contains('.') {
                        let k = choose|k: int| 0 <= k < parts[i].len() && parts[i][k] == '.';
                        assert(before.last()[k] == '.');
                    }
                }
            }
        }
    }
}

/// Whether `d` is the position of the last dot of `s`.
pub open spec fn is_last_dot(s: Seq<char>, d: int) -> bool {
    &&& 0 <= d < s.len()
    &&& s[d] == '.'
    &&& forall|k: int| d < k < s.len() ==> s[k] != '.'
}

/// Whether two dots stand side by side in `s`, the first one at position `i`.
pub open spec fn double_dot(s: Seq<char>, i: int) -> bool {
    0 <= i && i + 1 < s.len() && s[i] == '.' && s[i + 1] == '.'
}

/// Whether all labels of `s` but the last are non-empty.
spec fn inner_labels_filled(s: Seq<char>) -> bool {
    forall|i: int| 0 <= i < labels(s).len() - 1 ==> (#[trigger] labels(s)[i]).len() > 0
}

/// The labels of `s`, seen from the positions of its dots.
proof fn lemma_labels_by_dots(s: Seq<char>)
    ensures
        labels(s).len() > 0,
        labels(s).len() == 1 ==> labels(s).last() == s && !s.contains('.'),
        labels(s).len() > 1 ==> exists|d: int|
            #[trigger] is_last_dot(s, d) && labels(s).last() == s.skip(d + 1),
        labels(s).last().len() == 0 <==> s.len() == 0 || s.last() == '.',
        inner_labels_filled(s) <==> (s.len() > 0 ==> s[0] != '.') && forall|i: int|
            !double_dot(s, i),
    decreases s.len(),
{
    let parts = labels(s);
    if s.len() > 0 {
        let t = s.drop_last();
        let before = labels(t);
        lemma_labels_by_dots(t);
        assert(s =~= t.push(s.last()));
        assert forall|i: int| double_dot(t, i) implies double_dot(s, i) by {}
        assert forall|i: int| i != s.len() - 2 && double_dot(s, i) implies double_dot(t, i) by {}
        if s.last() == '.' {
            assert(is_last_dot(s, s.len() - 1));
            assert(s.skip(s.len() as int) =~= seq![]);
            assert(forall|i: int| 0 <= i < before.len() ==> parts[i] == #[trigger] before[i]);
            if t.len() > 0 && t.last() == '.' {
                assert(double_dot(s, s.len() - 2));
                assert(parts[before.len() - 1].len() == 0);
                assert(!inner_labels_filled(s));
            } else if t.len() == 0 {
                assert(parts[before.len() - 1].len() == 0);
                assert(!inner_labels_filled(s));
            } else {
                assert(!double_dot(s, s.len() - 2));
                if inner_labels_filled(s) {
                    assert forall|i: int| 0 <= i < before.len() - 1 implies (
                    #[trigger] before[i]).len() > 0 by {
                        assert(parts[i].len() > 0);
                    }
                }
                if inner_labels_filled(t) {
                    assert forall|i: int| 0 <= i < parts.len() - 1 implies (
                    #[trigger] parts[i]).len() > 0 by {
                        assert(before[i].len() > 0);
                    }
                }
                assert(inner_labels_filled(s) <==> inner_labels_filled(t));
            }
        } else {
            assert(forall|i: int|
                0 <= i < before.len() - 1 ==> #[trigger] parts[i] == before[i]);
            assert(inner_labels_filled(s) <==> inner_labels_filled(t)) by {
                if inner_labels_filled(s) {
                    assert forall|i: int| 0 <= i < before.len() - 1 implies (
                    #[trigger] before[i]).len() > 0 by {
                        assert(parts[i].len() > 0);
                    }
                }
                if inner_labels_filled(t) {
                    assert forall|i: int| 0 <= i < parts.len() - 1 implies (
                    #[trigger] parts[i]).len() > 0 by {
                        assert(before[i].len() > 0);
                    }
                }
            }
            if parts.len() == 1 {
                if s.contains('.') {
                    let k = choose|k: int| 0 <= k < s.len() && s[k] == '.';
                    assert(t[k] == '.');
                }
            } else {
                let d = choose|d: int|
                    #[trigger] is_last_dot(t, d) && before.last() == t.skip(d + 1);
                assert(is_last_dot(s, d)) by {
                    assert forall|k: int| d < k < s.len() implies s[k] != '.' by {
                        if k < t.len() {
                            assert(t[k] != '.');
                        }
                    }
                }
                assert(s.skip(d + 1) =~= t.skip(d + 1).push(s.last()));
            }
        }
    }
}

/// Which domains look real, seen from the dots: no dot at the start, no two dots side by side,
/// and behind the last dot a top-level domain of two letters or more. In particular a name
/// without a dot, or with a dot at its end, does not.
pub proof fn law_looks_real_by_dots(s: Seq<char>)
    ensures
        looks_real(s) <==> {
            &&& s.len() > 0 ==> s[0] != '.'
            &&& forall|i: int| !double_dot(s, i)
            &&& exists|d: int| #[trigger] is_last_dot(s, d) && tld_looks_real(s.skip(d + 1))
        },
{
    lemma_labels_by_dots(s);
    let parts = labels(s);
    if looks_real(s) {
        assert(inner_labels_filled(s));
    }
    if exists|d: int| #[trigger] is_last_dot(s, d) && tld_looks_real(s.skip(d + 1)) {
        let d = choose|d: int| #[trigger] is_last_dot(s, d) && tld_looks_real(s.skip(d + 1));
        assert(s[d] == '.');
        assert(s.contains('.'));
        let e = choose|e: int| #[trigger] is_last_dot(s, e) && parts.last() == s.skip(e + 1);
        assert(is_last_dot(s, e));
        assert(d == e) by {
            if d < e {
                assert(s[e] != '.');
            } else if e < d {
                assert(s[d] != '.');
            }
        }
    }
}

} // verus!
