//! Text handling shared by the rest of the library.
//!
//! A text is modelled by its characters, `Seq<char>`.

use vstd::prelude::*;

verus! {

/// Whether `c` has the Unicode property `White_Space`.
pub open spec fn is_white_space(c: char) -> bool {
    let n = c as u32;
    ||| 0x09 <= n <= 0x0d
    ||| n == 0x20
    ||| n == 0x85
    ||| n == 0xa0
    ||| n == 0x1680
    ||| 0x2000 <= n <= 0x200a
    ||| n == 0x2028
    ||| n == 0x2029
    ||| n == 0x202f
    ||| n == 0x205f
    ||| n == 0x3000
}

/// The predicate that holds of white space.
pub open spec fn white() -> spec_fn(char) -> bool {
    |c: char| is_white_space(c)
}

/// `s` without the longest run of characters at its start that satisfy `p`.
pub open spec fn drop_leading(s: Seq<char>, p: spec_fn(char) -> bool) -> Seq<char>
    decreases s.len(),
{
    if s.len() > 0 && p(s.first()) {
        drop_leading(s.drop_first(), p)
    } else {
        s
    }
}

/// `s` without the longest run of characters at its end that satisfy `p`.
pub open spec fn drop_trailing(s: Seq<char>, p: spec_fn(char) -> bool) -> Seq<char>
    decreases s.len(),
{
    if s.len() > 0 && p(s.last()) {
        drop_trailing(s.drop_last(), p)
    } else {
        s
    }
}

/// `s` without the white space at both its ends.
pub open spec fn trimmed(s: Seq<char>) -> Seq<char> {
    drop_trailing(drop_leading(s, white()), white())
}

/// Whether `s` begins with `prefix`.
pub open spec fn begins_with(s: Seq<char>, prefix: Seq<char>) -> bool {
    prefix.len() <= s.len() && s.take(prefix.len() as int) == prefix
}

/// `c` in lower case, if it is one of the letters `A` to `Z`.
pub open spec fn lower(c: char) -> char {
    if 'A' <= c && c <= 'Z' {
        ((c as u8) + 32) as u8 as char
    } else {
        c
    }
}

/// Whether `s` begins with `prefix`, where the letters `A` to `Z` count as those in lower case.
pub open spec fn begins_in_any_case(s: Seq<char>, prefix: Seq<char>) -> bool {
    &&& prefix.len() <= s.len()
    &&& forall|i: int| 0 <= i < prefix.len() ==> lower(#[trigger] s[i]) == prefix[i]
}

/// The character of a decimal digit.
pub open spec fn digit(d: nat) -> char {
    (('0' as nat) + d) as char
}

/// `n` in decimal, without leading zeros.
pub open spec fn decimal(n: nat) -> Seq<char>
    decreases n,
{
    if n < 10 {
        seq![digit(n)]
    } else {
        decimal(n / 10).push(digit(n % 10))
    }
}

/// `drop_leading` cuts a text at the first character that does not satisfy `p`.
pub proof fn lemma_drop_leading(s: Seq<char>, p: spec_fn(char) -> bool)
    ensures
        ({
            let r = drop_leading(s, p);
            &&& r.len() <= s.len()
            &&& r == s.skip(s.len() - r.len())
            &&& forall|i: int| 0 <= i < s.len() - r.len() ==> p(#[trigger] s[i])
            &&& r.len() > 0 ==> !p(r.first())
        }),
    decreases s.len(),
{
    let r = drop_leading(s, p);
    if s.len() > 0 && p(s.first()) {
        let rest = s.drop_first();
        lemma_drop_leading(rest, p);
        assert(rest.skip(rest.len() - r.len()) =~= s.skip(s.len() - r.len()));
        assert forall|i: int| 0 <= i < s.len() - r.len() implies p(#[trigger] s[i]) by {
            if i > 0 {
                assert(s[i] == rest[i - 1]);
            }
        }
    } else {
        assert(s.skip(0) =~= s);
    }
}

/// `drop_trailing` cuts a text after the last character that does not satisfy `p`.
pub proof fn lemma_drop_trailing(s: Seq<char>, p: spec_fn(char) -> bool)
    ensures
        ({
            let r = drop_trailing(s, p);
            &&& r.len() <= s.len()
            &&& r == s.take(r.len() as int)
            &&& forall|i: int| r.len() <= i < s.len() ==> p(#[trigger] s[i])
            &&& r.len() > 0 ==> !p(r.last())
        }),
    decreases s.len(),
{
    let r = drop_trailing(s, p);
    if s.len() > 0 && p(s.last()) {
        let rest = s.drop_last();
        lemma_drop_trailing(rest, p);
        assert(rest.take(r.len() as int) =~= s.take(r.len() as int));
        assert forall|i: int| r.len() <= i < s.len() implies p(#[trigger] s[i]) by {
            if i < s.len() - 1 {
                assert(s[i] == rest[i]);
            }
        }
    } else {
        assert(s.take(s.len() as int) =~= s);
    }
}

/// A run of characters that satisfy `p` vanishes from the end of a text.
pub proof fn lemma_drop_trailing_run(s: Seq<char>, run: Seq<char>, p: spec_fn(char) -> bool)
    requires
        forall|i: int| 0 <= i < run.len() ==> p(#[trigger] run[i]),
    ensures
        drop_trailing(s + run, p) == drop_trailing(s, p),
    decreases run.len(),
{
    if run.len() > 0 {
        assert((s + run).last() == run[run.len() - 1]);
        assert((s + run).drop_last() =~= s + run.drop_last());
        lemma_drop_trailing_run(s, run.drop_last(), p);
    } else {
        assert(s + run =~= s);
    }
}

/// A run of characters that satisfy `p` vanishes from the start of a text.
pub proof fn lemma_drop_leading_run(run: Seq<char>, s: Seq<char>, p: spec_fn(char) -> bool)
    requires
        forall|i: int| 0 <= i < run.len() ==> p(#[trigger] run[i]),
    ensures
        drop_leading(run + s, p) == drop_leading(s, p),
    decreases run.len(),
{
    if run.len() > 0 {
        assert((run + s).first() == run[0]);
        assert((run + s).drop_first() =~= run.drop_first() + s);
        lemma_drop_leading_run(run.drop_first(), s, p);
    } else {
        assert(run + s =~= s);
    }
}

/// Surrounding white space vanishes from a text that neither begins nor ends with any.
pub proof fn lemma_trimmed_between(before: Seq<char>, s: Seq<char>, after: Seq<char>)
    requires
        forall|i: int| 0 <= i < before.len() ==> is_white_space(#[trigger] before[i]),
        forall|i: int| 0 <= i < after.len() ==> is_white_space(#[trigger] after[i]),
        s.len() > 0 ==> !is_white_space(s.first()) && !is_white_space(s.last()),
    ensures
        trimmed(before + s + after) == s,
{
    let p = white();
    assert(forall|i: int| 0 <= i < before.len() ==> p(#[trigger] before[i]));
    assert(forall|i: int| 0 <= i < after.len() ==> p(#[trigger] after[i]));
    assert(before + s + after =~= before + (s + after));
    lemma_drop_leading_run(before, s + after, p);
    if s.len() > 0 {
        assert((s + after).first() == s.first());
        assert(drop_leading(s + after, p) == s + after);
        lemma_drop_trailing_run(s, after, p);
    } else {
        assert(s + after =~= after);
        assert(after + Seq::<char>::empty() =~= after);
        lemma_drop_leading_run(after, Seq::empty(), p);
        assert(s =~= Seq::empty());
    }
}

/// Trimming a text twice does no more than trimming it once, and leaves white space at neither
/// end.
pub proof fn lemma_trimmed(s: Seq<char>)
    ensures
        trimmed(s).len() <= s.len(),
        trimmed(trimmed(s)) == trimmed(s),
        trimmed(s).len() > 0 ==> !is_white_space(trimmed(s).first()) && !is_white_space(
            trimmed(s).last(),
        ),
{
    let inner = drop_leading(s, white());
    let t = trimmed(s);
    lemma_drop_leading(s, white());
    lemma_drop_trailing(inner, white());
    if t.len() > 0 {
        assert(t.first() == inner.first());
        assert(!white()(t.first()));
        assert(!white()(t.last()));
    }
    let none: Seq<char> = seq![];
    assert(none + t + none =~= t);
    lemma_trimmed_between(none, t, none);
}

/// White space around a text makes no difference to the trimmed text.
pub proof fn lemma_trimmed_around(before: Seq<char>, s: Seq<char>, after: Seq<char>)
    requires
        forall|i: int| 0 <= i < before.len() ==> is_white_space(#[trigger] before[i]),
        forall|i: int| 0 <= i < after.len() ==> is_white_space(#[trigger] after[i]),
    ensures
        trimmed(before + s + after) == trimmed(s),
{
    let p = white();
    let inner = drop_leading(s, p);
    let core = trimmed(s);
    lemma_drop_leading(s, p);
    lemma_drop_trailing(inner, p);
    lemma_trimmed(s);
    let front = before + s.take(s.len() - inner.len());
    let back = inner.skip(core.len() as int) + after;
    assert forall|i: int| 0 <= i < front.len() implies is_white_space(#[trigger] front[i]) by {
        if i >= before.len() {
            assert(p(s[i - before.len()]));
        }
    }
    assert forall|i: int| 0 <= i < back.len() implies is_white_space(#[trigger] back[i]) by {
        if i < inner.len() - core.len() {
            assert(p(inner[core.len() + i]));
        }
    }
    assert(before + s + after =~= front + core + back);
    lemma_trimmed_between(front, core, back);
}

/// Tests whether `c` has the Unicode property `White_Space`.
pub fn white_space(c: char) -> (res: bool)
    ensures
        res == is_white_space(c),
{
    let n: u32 = c as u32;
    (0x09 <= n && n <= 0x0d) || n == 0x20 || n == 0x85 || n == 0xa0 || n == 0x1680 || (0x2000 <= n
        && n <= 0x200a) || n == 0x2028 || n == 0x2029 || n == 0x202f || n == 0x205f || n == 0x3000
}

/// The characters of `s`.
pub fn chars_of(s: &str) -> (res: Vec<char>)
    ensures
        res@ == s@,
{
    let mut res: Vec<char> = Vec::new();
    for c in it: s.chars()
        invariant
            it.seq() == s@,
            res@ == s@.take(it.index()),
    {
        res.push(c);
    }
    res
}

/// `s` without leading and trailing white space.
pub fn trim(s: &str) -> (res: &str)
    ensures
        res@ == trimmed(s@),
{
    let chars = chars_of(s);
    let mut from: usize = 0;
    assert(s@.skip(0) =~= s@);
    while from < chars.len() && white_space(chars[from])
        invariant
            chars@ == s@,
            from <= chars.len(),
            drop_leading(s@, white()) == drop_leading(s@.skip(from as int), white()),
        decreases chars.len() - from,
    {
        assert(s@.skip(from as int).drop_first() =~= s@.skip(from as int + 1));
        from += 1;
    }
    let mut to: usize = chars.len();
    while from < to && white_space(chars[to - 1])
        invariant
            chars@ == s@,
            from <= to <= chars.len(),
            trimmed(s@) == drop_trailing(s@.subrange(from as int, to as int), white()),
        decreases to,
    {
        assert(s@.subrange(from as int, to as int).drop_last() =~= s@.subrange(
            from as int,
            to - 1,
        ));
        to -= 1;
    }
    s.substring_char(from, to)
}

/// Whether `pattern` stands in `chars` at position `at`.
pub(crate) fn stands_at(chars: &Vec<char>, at: usize, pattern: &Vec<char>) -> (res: bool)
    requires
        at <= chars.len(),
    ensures
        res == begins_with(chars@.skip(at as int), pattern@),
{
    if pattern.len() > chars.len() - at {
        return false;
    }
    let ghost rest = chars@.skip(at as int);
    let mut i: usize = 0;
    while i < pattern.len()
        invariant
            at <= chars.len(),
            pattern.len() <= chars.len() - at,
            rest == chars@.skip(at as int),
            i <= pattern.len(),
            forall|k: int| 0 <= k < i ==> rest[k] == pattern[k],
        decreases pattern.len() - i,
    {
        if chars[at + i] != pattern[i] {
            assert(rest.take(pattern.len() as int)[i as int] != pattern[i as int]);
            return false;
        }
        i += 1;
    }
    assert(rest.take(pattern.len() as int) =~= pattern@);
    true
}

/// `c` in lower case, if it is one of the letters `A` to `Z`.
fn lower_case(c: char) -> (res: char)
    ensures
        res == lower(c),
{
    if 'A' <= c && c <= 'Z' {
        (c as u8 + 32) as char
    } else {
        c
    }
}

/// Whether `s` begins with `prefix`, where the letters `A` to `Z` count as those in lower case.
pub fn starts_in_any_case(s: &str, prefix: &str) -> (res: bool)
    ensures
        res == begins_in_any_case(s@, prefix@),
{
    let chars = chars_of(s);
    let pattern = chars_of(prefix);
    if pattern.len() > chars.len() {
        return false;
    }
    let mut i: usize = 0;
    while i < pattern.len()
        invariant
            chars@ == s@,
            pattern@ == prefix@,
            pattern.len() <= chars.len(),
            i <= pattern.len(),
            forall|k: int| 0 <= k < i ==> lower(#[trigger] s@[k]) == prefix@[k],
        decreases pattern.len() - i,
    {
        if lower_case(chars[i]) != pattern[i] {
            assert(lower(s@[i as int]) != prefix@[i as int]);
            return false;
        }
        i += 1;
    }
    true
}

/// Whether `a` and `b` are the same text.
pub fn same(a: &str, b: &str) -> (res: bool)
    ensures
        res == (a@ == b@),
{
    let left = chars_of(a);
    let right = chars_of(b);
    if left.len() != right.len() {
        return false;
    }
    let found = stands_at(&left, 0, &right);
    assert(a@.skip(0) =~= a@);
    assert(a@.take(a@.len() as int) =~= a@);
    found
}

/// `a` followed by `b`.
pub fn join(a: &str, b: &str) -> (res: String)
    ensures
        res@ == a@ + b@,
{
    let mut res = a.to_owned();
    res.append(b);
    res
}

/// The decimal digit `d` as a text of one character.
fn digit_text(d: u64) -> (res: &'static str)
    requires
        d < 10,
    ensures
        res@ == seq![digit(d as nat)],
{
    proof {
        reveal_strlit("0");
        reveal_strlit("1");
        reveal_strlit("2");
        reveal_strlit("3");
        reveal_strlit("4");
        reveal_strlit("5");
        reveal_strlit("6");
        reveal_strlit("7");
        reveal_strlit("8");
        reveal_strlit("9");
    }
    match d {
        0 => "0",
        1 => "1",
        2 => "2",
        3 => "3",
        4 => "4",
        5 => "5",
        6 => "6",
        7 => "7",
        8 => "8",
        _ => "9",
    }
}

/// `n` in decimal, without leading zeros.
pub fn to_decimal(n: u64) -> (res: String)
    ensures
        res@ == decimal(n as nat),
    decreases n,
{
    if n < 10 {
        digit_text(n).to_owned()
    } else {
        let mut res = to_decimal(n / 10);
        res.append(digit_text(n % 10));
        res
    }
}

} // verus!
