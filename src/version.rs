//! The semantic-versioning format `MAJOR.MINOR.PATCH[-PRERELEASE]`.

use vstd::prelude::*;

verus! {

pub open spec fn is_digit(c: char) -> bool {
    '0' <= c <= '9'
}

pub open spec fn is_identifier_char(c: char) -> bool {
    is_digit(c) || ('a' <= c <= 'z') || ('A' <= c <= 'Z') || c == '-'
}

pub open spec fn all_digits(s: Seq<char>) -> bool {
    forall|i: int| 0 <= i < s.len() ==> is_digit(#[trigger] s[i])
}

/// One or more digits, with no leading zero unless the number is `0` itself.
pub open spec fn is_numeric_identifier(s: Seq<char>) -> bool {
    &&& s.len() > 0
    &&& all_digits(s)
    &&& (s[0] == '0' ==> s.len() == 1)
}

/// One or more ASCII letters, digits and hyphens; a purely numeric one has no
/// leading zero.
pub open spec fn is_prerelease_identifier(s: Seq<char>) -> bool {
    &&& s.len() > 0
    &&& forall|i: int| 0 <= i < s.len() ==> is_identifier_char(#[trigger] s[i])
    &&& (all_digits(s) ==> (s[0] == '0' ==> s.len() == 1))
}

/// The pieces of `s` between occurrences of `sep`; always at least one piece.
pub open spec fn split_on(s: Seq<char>, sep: char) -> Seq<Seq<char>>
    decreases s.len(),
{
    if s.len() == 0 {
        seq![Seq::empty()]
    } else {
        let parts = split_on(s.drop_last(), sep);
        if s.last() == sep {
            parts.push(Seq::empty())
        } else {
            parts.update(parts.len() - 1, parts.last().push(s.last()))
        }
    }
}

/// `MAJOR.MINOR.PATCH`, three numeric identifiers.
pub open spec fn is_version_core(s: Seq<char>) -> bool {
    let parts = split_on(s, '.');
    &&& parts.len() == 3
    &&& forall|i: int| 0 <= i < 3 ==> is_numeric_identifier(#[trigger] parts[i])
}

/// Dot-separated pre-release identifiers.
pub open spec fn is_prerelease(s: Seq<char>) -> bool {
    let parts = split_on(s, '.');
    forall|i: int| 0 <= i < parts.len() ==> is_prerelease_identifier(#[trigger] parts[i])
}

/// `MAJOR.MINOR.PATCH[-PRERELEASE]`: the text before the first hyphen is the
/// version core, and the text after it, if there is a hyphen, the pre-release.
pub open spec fn semver_format(s: Seq<char>) -> bool {
    let core = split_on(s, '-')[0];
    &&& is_version_core(core)
    &&& (core.len() < s.len() ==> is_prerelease(s.subrange(core.len() + 1 as int, s.len() as int)))
}

/// A version in the format is never empty.
pub proof fn lemma_semver_nonempty(s: Seq<char>)
    requires
        semver_format(s),
    ensures
        s.len() > 0,
{
    if s.len() == 0 {
        assert(split_on(s, '-')[0] == Seq::<char>::empty());
        assert(split_on(Seq::<char>::empty(), '.').len() == 1);
    }
}

pub proof fn lemma_split_on_nonempty(s: Seq<char>, sep: char)
    ensures
        split_on(s, sep).len() >= 1,
    decreases s.len(),
{
    if s.len() > 0 {
        lemma_split_on_nonempty(s.drop_last(), sep);
    }
}

/// The first piece is the text of `s` up to the first `sep`.
pub proof fn lemma_split_on_first(s: Seq<char>, sep: char)
    ensures
        split_on(s, sep).len() >= 1,
        split_on(s, sep)[0].len() <= s.len(),
        split_on(s, sep)[0] == s.subrange(0, split_on(s, sep)[0].len() as int),
        split_on(s, sep)[0].len() < s.len() ==> s[split_on(s, sep)[0].len() as int] == sep,
        split_on(s, sep)[0].len() < s.len() <==> split_on(s, sep).len() >= 2,
    decreases s.len(),
{
    lemma_split_on_nonempty(s, sep);
    if s.len() > 0 {
        let t = s.drop_last();
        lemma_split_on_first(t, sep);
        assert(s.subrange(0, t.len() as int) == t);
        let p = split_on(t, sep);
        let f = p[0];
        if s.last() != sep && p.len() == 1 {
            assert(split_on(s, sep)[0] == f.push(s.last()));
            assert(f.push(s.last()) == s);
        } else if f.len() < t.len() {
            assert(split_on(s, sep)[0] == f);
            assert(s[f.len() as int] == t[f.len() as int]);
        } else {
            assert(split_on(s, sep)[0] == f);
        }
    }
}

/// The characters of `s`, in order.
fn chars_of(s: &str) -> (r: Vec<char>)
    ensures
        r@ == s@,
{
    let n = s.unicode_len();
    let mut r: Vec<char> = Vec::new();
    let mut i: usize = 0;
    while i < n
        invariant
            n == s@.len(),
            i <= n,
            r@ == s@.take(i as int),
        decreases n - i,
    {
        r.push(s.get_char(i));
        i += 1;
        assert(r@ == s@.take(i as int));
    }
    assert(s@.take(n as int) == s@);
    r
}

/// The characters of `s` from `from` on.
fn suffix_of(s: &Vec<char>, from: usize) -> (r: Vec<char>)
    requires
        from <= s@.len(),
    ensures
        r@ == s@.subrange(from as int, s@.len() as int),
{
    let mut r: Vec<char> = Vec::new();
    let mut i: usize = from;
    while i < s.len()
        invariant
            from <= i <= s@.len(),
            r@ == s@.subrange(from as int, i as int),
        decreases s@.len() - i,
    {
        r.push(s[i]);
        i += 1;
        assert(r@ == s@.subrange(from as int, i as int));
    }
    r
}

/// Splits `s` at every `sep`.
fn split_chars(s: &Vec<char>, sep: char) -> (r: Vec<Vec<char>>)
    ensures
        r@.map_values(|p: Vec<char>| p@) == split_on(s@, sep),
{
    let mut parts: Vec<Vec<char>> = Vec::new();
    let mut cur: Vec<char> = Vec::new();
    let mut i: usize = 0;
    while i < s.len()
        invariant
            i <= s@.len(),
            split_on(s@.take(i as int), sep) == parts@.map_values(|p: Vec<char>| p@).push(cur@),
        decreases s@.len() - i,
    {
        let c = s[i];
        assert(s@.take(i + 1).drop_last() == s@.take(i as int));
        if c == sep {
            let ghost before = parts@;
            let ghost piece = cur@;
            parts.push(cur);
            cur = Vec::new();
            assert(parts@.map_values(|p: Vec<char>| p@) =~= before.map_values(|p: Vec<char>| p@).push(piece));
            assert(cur@ =~= Seq::<char>::empty());
        } else {
            cur.push(c);
        }
        i += 1;
    }
    let ghost before = parts@;
    let ghost piece = cur@;
    parts.push(cur);
    assert(parts@.map_values(|p: Vec<char>| p@) =~= before.map_values(|p: Vec<char>| p@).push(piece));
    assert(s@.take(s@.len() as int) == s@);
    parts
}

fn digits_only(s: &Vec<char>) -> (r: bool)
    ensures
        r == all_digits(s@),
{
    let mut i: usize = 0;
    while i < s.len()
        invariant
            i <= s@.len(),
            forall|j: int| 0 <= j < i ==> is_digit(#[trigger] s@[j]),
        decreases s@.len() - i,
    {
        let c = s[i];
        if !('0' <= c && c <= '9') {
            return false;
        }
        i += 1;
    }
    true
}

fn identifier_chars_only(s: &Vec<char>) -> (r: bool)
    ensures
        r == forall|i: int| 0 <= i < s@.len() ==> is_identifier_char(#[trigger] s@[i]),
{
    let mut i: usize = 0;
    while i < s.len()
        invariant
            i <= s@.len(),
            forall|j: int| 0 <= j < i ==> is_identifier_char(#[trigger] s@[j]),
        decreases s@.len() - i,
    {
        let c = s[i];
        if !(('0' <= c && c <= '9') || ('a' <= c && c <= 'z') || ('A' <= c && c <= 'Z') || c
            == '-') {
            return false;
        }
        i += 1;
    }
    true
}

fn numeric_identifier(s: &Vec<char>) -> (r: bool)
    ensures
        r == is_numeric_identifier(s@),
{
    s.len() > 0 && digits_only(s) && !(s[0] == '0' && s.len() > 1)
}

fn prerelease_identifier(s: &Vec<char>) -> (r: bool)
    ensures
        r == is_prerelease_identifier(s@),
{
    s.len() > 0 && identifier_chars_only(s) && !(digits_only(s) && s[0] == '0' && s.len() > 1)
}

/// Whether `s` is in the format `MAJOR.MINOR.PATCH[-PRERELEASE]`.
pub fn is_semver(s: &str) -> (r: bool)
    ensures
        r == semver_format(s@),
{
    let chars = chars_of(s);
    let by_hyphen = split_chars(&chars, '-');
    proof {
        lemma_split_on_first(chars@, '-');
    }
    let core = &by_hyphen[0];
    assert(core@ == split_on(s@, '-')[0]);
    let core_parts = split_chars(core, '.');
    if core_parts.len() != 3 {
        return false;
    }
    let mut i: usize = 0;
    while i < 3
        invariant
            i <= 3,
            core_parts@.map_values(|p: Vec<char>| p@) == split_on(core@, '.'),
            core_parts@.len() == 3,
            core@ == split_on(s@, '-')[0],
            forall|j: int| 0 <= j < i ==> is_numeric_identifier(#[trigger] split_on(core@, '.')[j]),
        decreases 3 - i,
    {
        assert(core_parts[i as int]@ == core_parts@.map_values(|p: Vec<char>| p@)[i as int]);
        if !numeric_identifier(&core_parts[i]) {
            assert(!is_numeric_identifier(split_on(core@, '.')[i as int]));
            return false;
        }
        i += 1;
    }
    if core.len() == chars.len() {
        return true;
    }
    let pre = suffix_of(&chars, core.len() + 1);
    let pre_parts = split_chars(&pre, '.');
    let mut k: usize = 0;
    while k < pre_parts.len()
        invariant
            k <= pre_parts@.len(),
            pre_parts@.map_values(|p: Vec<char>| p@) == split_on(pre@, '.'),
            core@ == split_on(s@, '-')[0],
            core@.len() < s@.len(),
            is_version_core(core@),
            pre@ == s@.subrange(core@.len() + 1 as int, s@.len() as int),
            forall|j: int| 0 <= j < k ==> is_prerelease_identifier(#[trigger] split_on(pre@, '.')[j]),
        decreases pre_parts@.len() - k,
    {
        assert(pre_parts[k as int]@ == pre_parts@.map_values(|p: Vec<char>| p@)[k as int]);
        if !prerelease_identifier(&pre_parts[k]) {
            assert(!is_prerelease_identifier(split_on(pre@, '.')[k as int]));
            return false;
        }
        k += 1;
    }
    true
}

}
