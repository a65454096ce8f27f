//! Looking for text in text.
use vstd::prelude::*;

verus! {

/// Does `pattern` stand in `s` at `at`?
pub open spec fn stands_at(s: Seq<char>, pattern: Seq<char>, at: int) -> bool {
    0 <= at && at + pattern.len() <= s.len() && s.subrange(at, at + pattern.len()) == pattern
}

/// Does `pattern` stand anywhere in `s`?
pub open spec fn contains(s: Seq<char>, pattern: Seq<char>) -> bool {
    exists|at: int| stands_at(s, pattern, at)
}

/// The letter `c` in lower case, where it is one of the ASCII capitals, and
/// otherwise `c`.
pub open spec fn ascii_lower(c: char) -> char {
    if 'A' <= c <= 'Z' {
        (c as u32 + 32) as char
    } else {
        c
    }
}

/// `s` with its ASCII capitals in lower case.
pub open spec fn lower(s: Seq<char>) -> Seq<char> {
    s.map_values(|c: char| ascii_lower(c))
}

/// The characters of `s`.
pub fn chars_of(s: &str) -> (out: Vec<char>)
    ensures
        out@ == s@,
{
    let mut out: Vec<char> = Vec::new();
    for c in it: s.chars()
        invariant
            it.seq() == s@,
            out@ == s@.take(it.index() as int),
    {
        out.push(c);
        assert(out@ =~= s@.take(it.index() + 1));
    }
    assert(s@.take(s@.len() as int) =~= s@);
    out
}

/// `c` in lower case, where it is an ASCII capital.
pub fn to_lower(c: char) -> (out: char)
    ensures
        out == ascii_lower(c),
{
    if 'A' <= c && c <= 'Z' {
        (c as u8 + 32) as char
    } else {
        c
    }
}

/// `s` with its ASCII capitals in lower case.
pub fn lower_chars(s: &Vec<char>) -> (out: Vec<char>)
    ensures
        out@ == lower(s@),
{
    let mut out: Vec<char> = Vec::new();
    let mut i: usize = 0;
    while i < s.len()
        invariant
            i <= s@.len(),
            out@ == lower(s@).take(i as int),
        decreases s@.len() - i,
    {
        out.push(to_lower(s[i]));
        i = i + 1;
        assert(out@ =~= lower(s@).take(i as int));
    }
    assert(lower(s@).take(s@.len() as int) =~= lower(s@));
    out
}

/// Does `pattern` stand in `s` at `at`, and end no later than at `to`?
fn matches_at(s: &Vec<char>, to: usize, pattern: &Vec<char>, at: usize) -> (yes: bool)
    requires
        at <= to <= s@.len(),
    ensures
        yes == (at + pattern@.len() <= to && s@.subrange(at as int, at + pattern@.len())
            == pattern@),
{
    if pattern.len() > to - at {
        return false;
    }
    let mut i: usize = 0;
    let ghost window = s@.subrange(at as int, at + pattern@.len());
    while i < pattern.len()
        invariant
            at + pattern@.len() <= to <= s@.len(),
            window == s@.subrange(at as int, at + pattern@.len()),
            i <= pattern@.len(),
            forall|j: int| 0 <= j < i ==> #[trigger] window[j] == pattern@[j],
        decreases pattern@.len() - i,
    {
        assert(window[i as int] == s@[at + i]);
        if s[at + i] != pattern[i] {
            return false;
        }
        i = i + 1;
    }
    assert(window =~= pattern@);
    true
}

/// Does `pattern` stand anywhere in the characters of `s` from `from` to `to`?
pub fn range_contains(s: &Vec<char>, from: usize, to: usize, pattern: &Vec<char>) -> (yes: bool)
    requires
        from <= to <= s@.len(),
    ensures
        yes == contains(s@.subrange(from as int, to as int), pattern@),
{
    let ghost part = s@.subrange(from as int, to as int);
    let mut at: usize = from;
    loop
        invariant
            from <= at <= to <= s@.len(),
            part == s@.subrange(from as int, to as int),
            forall|i: int| 0 <= i < at - from ==> !stands_at(part, pattern@, i),
        decreases to - at,
    {
        proof {
            if at + pattern@.len() <= to {
                assert(part.subrange(at - from, at - from + pattern@.len()) =~= s@.subrange(
                    at as int,
                    at + pattern@.len(),
                ));
            }
        }
        if matches_at(s, to, pattern, at) {
            assert(stands_at(part, pattern@, at - from));
            return true;
        }
        assert(!stands_at(part, pattern@, at - from));
        if at == to {
            assert forall|i: int| !stands_at(part, pattern@, i) by {
                if 0 <= i <= to - from {
                }
            }
            return false;
        }
        at = at + 1;
    }
}

/// Does `s` start with `pattern`?
pub fn starts_with(s: &Vec<char>, pattern: &Vec<char>) -> (yes: bool)
    ensures
        yes == stands_at(s@, pattern@, 0),
{
    matches_at(s, s.len(), pattern, 0)
}

/// A text stands at a place where what comes from there on starts with it, and a
/// text holds another where there is such a place.
pub proof fn law_text_stands_where_it_starts(s: Seq<char>, pattern: Seq<char>, at: int)
    ensures
        stands_at(s, pattern, at) <==> 0 <= at <= s.len() && pattern.is_prefix_of(s.skip(at)),
        contains(s, pattern) <==> exists|i: int|
            0 <= i <= s.len() && pattern.is_prefix_of(#[trigger] s.skip(i)),
{
    assert forall|i: int|
        stands_at(s, pattern, i) <==> 0 <= i <= s.len() && pattern.is_prefix_of(
            #[trigger] s.skip(i),
        ) by {
        let n = pattern.len() as int;
        if 0 <= i && i + n <= s.len() {
            assert(s.skip(i).subrange(0, n) =~= s.subrange(i, i + n));
        }
    }
    if contains(s, pattern) {
        let i = choose|i: int| stands_at(s, pattern, i);
        assert(pattern.is_prefix_of(s.skip(i)));
    }
}

/// Lowering a text keeps its length and moves the capitals from `A` to `Z`, and
/// nothing else, by the distance from `A` to `a`.
pub proof fn law_lower_moves_capitals_only(s: Seq<char>, i: int)
    requires
        0 <= i < s.len(),
    ensures
        lower(s).len() == s.len(),
        lower(s)[i] == ascii_lower(s[i]),
        lower(s)[i] as int == if 65 <= s[i] as int <= 90 {
            s[i] as int + 32
        } else {
            s[i] as int
        },
{
}

} // verus!
