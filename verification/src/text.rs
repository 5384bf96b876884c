//! Character sequences: whitespace, trimming and substring search.
//!
//! The contracts speak of `Seq<char>`, the view of a string. The executable
//! functions work on slices of characters and return counts and positions, so
//! that a caller can cut the string it started from.

use vstd::prelude::*;
use vstd::slice::slice_subrange;

verus! {

/// Whether `c` has the Unicode `White_Space` property.
pub open spec fn is_whitespace(c: char) -> bool {
    let n = c as u32;
    ||| 0x09 <= n <= 0x0D
    ||| n == 0x20
    ||| n == 0x85
    ||| n == 0xA0
    ||| n == 0x1680
    ||| 0x2000 <= n <= 0x200A
    ||| n == 0x2028
    ||| n == 0x2029
    ||| n == 0x202F
    ||| n == 0x205F
    ||| n == 0x3000
}

/// The whitespace characters.
pub open spec fn whitespace() -> Set<char> {
    Set::new(|c: char| is_whitespace(c))
}

/// How many characters at the start of `s` lie in `set`: the position of the
/// first character outside `set`, or the length of `s` if there is none.
pub open spec fn leading(s: Seq<char>, set: Set<char>) -> nat
    decreases s.len(),
{
    if s.len() > 0 && set.contains(s.first()) {
        1 + leading(s.drop_first(), set)
    } else {
        0
    }
}

/// How many characters at the end of `s` lie in `set`.
pub open spec fn trailing(s: Seq<char>, set: Set<char>) -> nat
    decreases s.len(),
{
    if s.len() > 0 && set.contains(s.last()) {
        1 + trailing(s.drop_last(), set)
    } else {
        0
    }
}

/// `s` without its leading whitespace.
pub open spec fn trim_start(s: Seq<char>) -> Seq<char> {
    s.skip(leading(s, whitespace()) as int)
}

/// `s` without its trailing whitespace.
pub open spec fn trim_end(s: Seq<char>) -> Seq<char> {
    s.take(s.len() - trailing(s, whitespace()))
}

/// `s` without its leading and trailing whitespace.
pub open spec fn trim(s: Seq<char>) -> Seq<char> {
    trim_end(trim_start(s))
}

/// Whether `pattern` stands in `s` at position `i`.
pub open spec fn occurs_at(s: Seq<char>, pattern: Seq<char>, i: int) -> bool {
    0 <= i && i + pattern.len() <= s.len() && s.subrange(i, i + pattern.len()) == pattern
}

/// Whether `pattern` stands somewhere in `s`.
pub open spec fn contains(s: Seq<char>, pattern: Seq<char>) -> bool {
    exists|i: int| occurs_at(s, pattern, i)
}

/// Whether `i` is the leftmost position at which `pattern` stands in `s`.
pub open spec fn is_first_occurrence(s: Seq<char>, pattern: Seq<char>, i: int) -> bool {
    occurs_at(s, pattern, i) && forall|j: int| 0 <= j < i ==> !occurs_at(s, pattern, j)
}

/// The leftmost position at which `pattern` stands in `s`, if it stands
/// anywhere.
pub open spec fn first_occurrence(s: Seq<char>, pattern: Seq<char>) -> Option<int> {
    if exists|i: int| is_first_occurrence(s, pattern, i) {
        Some(choose|i: int| is_first_occurrence(s, pattern, i))
    } else {
        None
    }
}

/// `s` with every `from` replaced by `to`.
pub open spec fn replaced(s: Seq<char>, from: char, to: char) -> Seq<char> {
    s.map_values(|c: char| if c == from { to } else { c })
}

/// A count that stops at the first character outside `set`, or at the end,
/// is the leading count.
pub proof fn lemma_leading_is(s: Seq<char>, set: Set<char>, k: int)
    requires
        0 <= k <= s.len(),
        forall|i: int| 0 <= i < k ==> set.contains(s[i]),
        k < s.len() ==> !set.contains(s[k]),
    ensures
        leading(s, set) == k,
    decreases s.len(),
{
    if k > 0 {
        let rest = s.drop_first();
        lemma_leading_is(rest, set, k - 1);
    }
}

/// The leading count stays within `s`, covers only characters of `set`, and
/// stops at a character outside `set` unless it reaches the end.
pub proof fn lemma_leading_stops(s: Seq<char>, set: Set<char>)
    ensures
        leading(s, set) <= s.len(),
        forall|i: int| 0 <= i < leading(s, set) ==> set.contains(s[i]),
        leading(s, set) < s.len() ==> !set.contains(s[leading(s, set) as int]),
    decreases s.len(),
{
    if s.len() > 0 && set.contains(s.first()) {
        let rest = s.drop_first();
        lemma_leading_stops(rest, set);
        assert forall|i: int| 0 <= i < leading(s, set) implies set.contains(s[i]) by {
            if i > 0 {
                assert(s[i] == rest[i - 1]);
            }
        }
    }
}

/// A count from the end that stops at the last character outside `set`, or
/// at the start, is the trailing count.
pub proof fn lemma_trailing_is(s: Seq<char>, set: Set<char>, k: int)
    requires
        0 <= k <= s.len(),
        forall|i: int| s.len() - k <= i < s.len() ==> set.contains(s[i]),
        k < s.len() ==> !set.contains(s[s.len() - k - 1]),
    ensures
        trailing(s, set) == k,
    decreases s.len(),
{
    if k > 0 {
        let rest = s.drop_last();
        lemma_trailing_is(rest, set, k - 1);
    }
}

/// The trailing count stays within `s`, covers only characters of `set`, and
/// stops at a character outside `set` unless it reaches the start.
pub proof fn lemma_trailing_stops(s: Seq<char>, set: Set<char>)
    ensures
        trailing(s, set) <= s.len(),
        forall|i: int| s.len() - trailing(s, set) <= i < s.len() ==> set.contains(s[i]),
        trailing(s, set) < s.len() ==> !set.contains(s[s.len() - trailing(s, set) - 1]),
    decreases s.len(),
{
    if s.len() > 0 && set.contains(s.last()) {
        let rest = s.drop_last();
        lemma_trailing_stops(rest, set);
        assert forall|i: int| s.len() - trailing(s, set) <= i < s.len() implies set.contains(
            s[i],
        ) by {
            if i < s.len() - 1 {
                assert(s[i] == rest[i]);
            }
        }
    }
}

/// Whitespace in front of a text falls to `trim_start`, and so to `trim`.
pub proof fn lemma_trim_after_whitespace(c: char, s: Seq<char>)
    requires
        is_whitespace(c),
    ensures
        trim_start(seq![c] + s) == trim_start(s),
        trim(seq![c] + s) == trim(s),
{
    let whole = seq![c] + s;
    assert(whole.drop_first() == s);
    lemma_leading_stops(s, whitespace());
}

/// A text that begins with a character that is no whitespace is its own
/// `trim_start`.
pub proof fn lemma_trim_start_of_text(s: Seq<char>)
    requires
        s.len() > 0,
        !is_whitespace(s[0]),
    ensures
        trim_start(s) == s,
{
}

/// A trimmed text neither begins nor ends with whitespace, so that trimming
/// it again changes nothing.
pub proof fn lemma_trim_is_trimmed(s: Seq<char>)
    ensures
        trim(s).len() > 0 ==> !is_whitespace(trim(s).first()) && !is_whitespace(trim(s).last()),
        trim_start(trim(s)) == trim(s),
        trim_end(trim(s)) == trim(s),
        trim(trim(s)) == trim(s),
{
    let inner = trim_start(s);
    let t = trim(s);
    lemma_leading_stops(s, whitespace());
    lemma_trailing_stops(inner, whitespace());
    if t.len() > 0 {
        assert(t.first() == s[leading(s, whitespace()) as int]);
        assert(t.last() == inner[inner.len() - trailing(inner, whitespace()) - 1]);
    }
    lemma_leading_is(t, whitespace(), 0);
    lemma_trailing_is(t, whitespace(), 0);
    assert(t.skip(0) == t);
    assert(t.take(t.len() as int) == t);
}

/// A leftmost occurrence is the first occurrence.
pub proof fn lemma_first_occurrence_is(s: Seq<char>, pattern: Seq<char>, i: int)
    requires
        is_first_occurrence(s, pattern, i),
    ensures
        first_occurrence(s, pattern) == Some(i),
{
    let j = choose|j: int| is_first_occurrence(s, pattern, j);
    assert(is_first_occurrence(s, pattern, j));
}

/// A pattern that stands somewhere has a first occurrence, at or before
/// every place where it stands.
pub proof fn lemma_first_occurrence_exists(s: Seq<char>, pattern: Seq<char>, i: int)
    requires
        occurs_at(s, pattern, i),
    ensures
        first_occurrence(s, pattern) is Some,
        first_occurrence(s, pattern)->0 <= i,
        is_first_occurrence(s, pattern, first_occurrence(s, pattern)->0),
    decreases i,
{
    if exists|j: int| 0 <= j < i && occurs_at(s, pattern, j) {
        let j = choose|j: int| 0 <= j < i && occurs_at(s, pattern, j);
        lemma_first_occurrence_exists(s, pattern, j);
    } else {
        lemma_first_occurrence_is(s, pattern, i);
    }
}

/// A pattern that comes after a text without it is found right after that
/// text, provided that the pattern does not repeat its first character: no
/// occurrence can then begin in the text and end in the pattern.
pub proof fn lemma_first_occurrence_after(before: Seq<char>, pattern: Seq<char>, after: Seq<char>)
    requires
        !contains(before, pattern),
        forall|k: int| 0 < k < pattern.len() ==> #[trigger] pattern[k] != pattern[0],
    ensures
        first_occurrence(before + pattern + after, pattern) == Some(before.len() as int),
{
    let s = before + pattern + after;
    let at = before.len() as int;
    assert(s.subrange(at, at + pattern.len()) =~= pattern);
    assert forall|j: int| 0 <= j < at implies !occurs_at(s, pattern, j) by {
        if occurs_at(s, pattern, j) {
            let found = s.subrange(j, j + pattern.len());
            if j + pattern.len() <= at {
                assert(before.subrange(j, j + pattern.len()) =~= found);
                assert(occurs_at(before, pattern, j));
            } else {
                assert(found[at - j] == s[at]);
                assert(s[at] == pattern[0]);
            }
        }
    }
    lemma_first_occurrence_is(s, pattern, at);
}

/// Where the pattern stands nowhere, there is no first occurrence.
pub proof fn lemma_first_occurrence_none(s: Seq<char>, pattern: Seq<char>)
    requires
        forall|i: int| !occurs_at(s, pattern, i),
    ensures
        first_occurrence(s, pattern) is None,
{
}

/// `String::push` of std appends the character to the end of the string.
pub assume_specification[ String::push ](s: &mut String, c: char)
    ensures
        final(s)@ == old(s)@.push(c),
;

/// Decides [`is_whitespace`].
pub fn is_whitespace_char(c: char) -> (b: bool)
    ensures
        b == is_whitespace(c),
{
    let n: u32 = c as u32;
    (0x09 <= n && n <= 0x0D) || n == 0x20 || n == 0x85 || n == 0xA0 || n == 0x1680 || (0x2000 <= n
        && n <= 0x200A) || n == 0x2028 || n == 0x2029 || n == 0x202F || n == 0x205F || n == 0x3000
}

/// The characters of `s`, in order.
pub fn chars_of(s: &str) -> (v: Vec<char>)
    ensures
        v@ == s@,
{
    let mut v: Vec<char> = Vec::new();
    for c in it: s.chars()
        invariant
            it.seq() == s@,
            v@ == s@.take(it.index() as int),
    {
        v.push(c);
    }
    v
}

/// Counts the whitespace at the start of `s`.
pub fn leading_whitespace(s: &[char]) -> (n: usize)
    ensures
        n == leading(s@, whitespace()),
{
    let mut n: usize = 0;
    while n < s.len() && is_whitespace_char(s[n])
        invariant
            n <= s.len(),
            forall|i: int| 0 <= i < n ==> whitespace().contains(s@[i]),
        decreases s.len() - n,
    {
        n += 1;
    }
    proof {
        lemma_leading_is(s@, whitespace(), n as int);
    }
    n
}

/// Counts the whitespace at the end of `s`.
pub fn trailing_whitespace(s: &[char]) -> (n: usize)
    ensures
        n == trailing(s@, whitespace()),
{
    let mut n: usize = 0;
    while n < s.len() && is_whitespace_char(s[s.len() - n - 1])
        invariant
            n <= s.len(),
            forall|i: int| s.len() - n <= i < s.len() ==> whitespace().contains(s@[i]),
        decreases s.len() - n,
    {
        n += 1;
    }
    proof {
        lemma_trailing_is(s@, whitespace(), n as int);
    }
    n
}

/// The positions between which `s` is free of surrounding whitespace.
pub fn trim_bounds(s: &[char]) -> (r: (usize, usize))
    ensures
        r.0 <= r.1 <= s.len(),
        s@.subrange(r.0 as int, r.1 as int) == trim(s@),
{
    let from = leading_whitespace(s);
    proof {
        lemma_leading_stops(s@, whitespace());
    }
    let rest = slice_subrange(s, from, s.len());
    let back = trailing_whitespace(rest);
    proof {
        lemma_trailing_stops(rest@, whitespace());
    }
    (from, s.len() - back)
}

/// Counts the occurrences of `c` at the start of `s`.
pub fn leading_char(s: &[char], c: char) -> (n: usize)
    ensures
        n == leading(s@, set![c]),
{
    let mut n: usize = 0;
    while n < s.len() && s[n] == c
        invariant
            n <= s.len(),
            forall|i: int| 0 <= i < n ==> set![c].contains(s@[i]),
        decreases s.len() - n,
    {
        n += 1;
    }
    proof {
        lemma_leading_is(s@, set![c], n as int);
    }
    n
}

/// The string of `s` with every `from` replaced by `to`.
pub fn replace_char(s: &[char], from: char, to: char) -> (r: String)
    ensures
        r@ == replaced(s@, from, to),
{
    let mut r = String::new();
    let mut i: usize = 0;
    while i < s.len()
        invariant
            i <= s.len(),
            r@ == replaced(s@.take(i as int), from, to),
        decreases s.len() - i,
    {
        let c = if s[i] == from {
            to
        } else {
            s[i]
        };
        r.push(c);
        i += 1;
    }
    r
}

/// Whether `pattern` stands in `s` at position `at`.
pub fn matches_at(s: &[char], pattern: &[char], at: usize) -> (b: bool)
    ensures
        b == occurs_at(s@, pattern@, at as int),
{
    if at > s.len() || pattern.len() > s.len() - at {
        return false;
    }
    let mut k: usize = 0;
    while k < pattern.len()
        invariant
            k <= pattern.len(),
            at + pattern.len() <= s.len(),
            forall|i: int| 0 <= i < k ==> s@[at + i] == pattern@[i],
        decreases pattern.len() - k,
    {
        if s[at + k] != pattern[k] {
            proof {
            }
            return false;
        }
        k += 1;
    }
    assert(s@.subrange(at as int, at + pattern.len()) =~= pattern@);
    true
}

/// The leftmost position at which `pattern` stands in `s`.
pub fn find(s: &[char], pattern: &[char]) -> (r: Option<usize>)
    ensures
        match r {
            Some(i) => first_occurrence(s@, pattern@) == Some(i as int),
            None => first_occurrence(s@, pattern@) is None,
        },
{
    let mut i: usize = 0;
    loop
        invariant
            i <= s.len(),
            forall|j: int| 0 <= j < i ==> !occurs_at(s@, pattern@, j),
        ensures
            forall|j: int| 0 <= j <= s.len() ==> !occurs_at(s@, pattern@, j),
        decreases s.len() - i,
    {
        if matches_at(s, pattern, i) {
            proof {
                lemma_first_occurrence_is(s@, pattern@, i as int);
            }
            return Some(i);
        }
        if i == s.len() {
            break;
        }
        i += 1;
    }
    proof {
        lemma_first_occurrence_none(s@, pattern@);
    }
    None
}

} // verus!
