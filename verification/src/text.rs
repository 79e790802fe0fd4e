//! White space in texts read from files.

use vstd::prelude::*;

verus! {

/// Whether `c` is white space as Unicode defines it.
pub open spec fn is_space(c: char) -> bool {
    let n = c as u32;
    ||| 0x09 <= n <= 0x0D
    ||| n == 0x20
    ||| n == 0x85
    ||| n == 0xA0
    ||| n == 0x1680
    ||| 0x2000 <= n <= 0x200A
    ||| n == 0x2028
    ||| n == 0x2029
    ||| n == 0x202F
    ||| n == 0x205F
    ||| n == 0x3000
}

/// Whether `c` is white space as Unicode defines it.
pub fn is_whitespace(c: char) -> (space: bool)
    ensures
        space == is_space(c),
{
    let n: u32 = c as u32;
    (0x09 <= n && n <= 0x0D) || n == 0x20 || n == 0x85 || n == 0xA0 || n == 0x1680 || (0x2000 <= n
        && n <= 0x200A) || n == 0x2028 || n == 0x2029 || n == 0x202F || n == 0x205F || n == 0x3000
}

/// Whether `text` from `from` up to `to` is white space only.
pub open spec fn blank(text: Seq<char>, from: int, to: int) -> bool {
    forall|i: int| from <= i < to ==> is_space(#[trigger] text[i])
}

/// Whether `text` from `from` up to `to` is `text` without the white space
/// at its start and at its end: nothing but white space lies outside, and
/// the part is empty or starts and ends with something else.
pub open spec fn is_trim(text: Seq<char>, from: int, to: int) -> bool {
    &&& 0 <= from <= to <= text.len()
    &&& blank(text, 0, from)
    &&& blank(text, to, text.len() as int)
    &&& from < to ==> !is_space(text[from]) && !is_space(text[to - 1])
    &&& from == to ==> from == text.len()
}

/// `text` without the white space at its start and at its end.
pub open spec fn trimmed(text: Seq<char>) -> Seq<char> {
    let (from, to) = choose|from: int, to: int| is_trim(text, from, to);
    text.subrange(from, to)
}

/// A text has one trim only.
pub proof fn lemma_trim_unique(text: Seq<char>, from: int, to: int)
    requires
        is_trim(text, from, to),
    ensures
        trimmed(text) == text.subrange(from, to),
{
    let (a, b) = choose|a: int, b: int| is_trim(text, a, b);
    assert(is_trim(text, a, b));
    if from < to {
        if a == b {
            assert(is_space(text[from]));
        }
        if a < from {
            assert(is_space(text[a]));
        }
        if from < a {
            assert(is_space(text[from]));
        }
        if b < to {
            assert(is_space(text[to - 1]));
        }
        if to < b {
            assert(is_space(text[b - 1]));
        }
    } else {
        if a < b {
            assert(is_space(text[a]));
        }
    }
    assert(text.subrange(a, b) =~= text.subrange(from, to));
}

/// The characters of `text`.
pub fn chars_of(text: &str) -> (chars: Vec<char>)
    ensures
        chars@ == text@,
{
    let mut chars: Vec<char> = Vec::new();
    for c in it: text.chars()
        invariant
            it.seq() == text@,
            chars@ == text@.take(it.index() as int),
    {
        proof {
            assert(text@.take(it.index() + 1) =~= text@.take(it.index() as int).push(c));
        }
        chars.push(c);
    }
    proof {
        assert(text@.take(text@.len() as int) =~= text@);
    }
    chars
}

/// Where `chars` without the white space at its start and at its end
/// starts and ends.
pub fn trim_bounds(chars: &[char]) -> (bounds: (usize, usize))
    ensures
        is_trim(chars@, bounds.0 as int, bounds.1 as int),
        chars@.subrange(bounds.0 as int, bounds.1 as int) == trimmed(chars@),
{
    let mut from: usize = 0;
    while from < chars.len() && is_whitespace(chars[from])
        invariant
            from <= chars@.len(),
            blank(chars@, 0, from as int),
        decreases chars@.len() - from,
    {
        from += 1;
    }
    let mut to: usize = chars.len();
    while to > from && is_whitespace(chars[to - 1])
        invariant
            from <= to <= chars@.len(),
            blank(chars@, to as int, chars@.len() as int),
        decreases to,
    {
        to -= 1;
    }
    proof {
        lemma_trim_unique(chars@, from as int, to as int);
    }
    (from, to)
}

} // verus!
