//! The best score so far: how it is read from its file's text, and how a
//! finished game changes it.

use crate::text::{chars_of, trim_bounds, trimmed};
use vstd::prelude::*;

verus! {

/// Holds a finished game's `score` against the best score so far,
/// `current`. The result is the best score from now on, and whether this
/// game set it: only a score above the old best does.
pub fn update_high_score(score: usize, current: usize) -> (best: (usize, bool))
    ensures
        best.0 == (if score > current {
            score
        } else {
            current
        }),
        best.1 == (score > current),
        best.0 >= score && best.0 >= current,
{
    if score > current {
        (score, true)
    } else {
        (current, false)
    }
}

/// Whether `c` is one of the digits `0` to `9`.
pub open spec fn is_digit(c: char) -> bool {
    48 <= c as u32 <= 57
}

/// The value of a digit.
pub open spec fn digit_value(c: char) -> nat {
    (c as u32 - 48) as nat
}

/// Whether `text` holds digits only.
pub open spec fn all_digits(text: Seq<char>) -> bool {
    forall|i: int| 0 <= i < text.len() ==> is_digit(#[trigger] text[i])
}

/// The number that a text of digits spells in base ten.
pub open spec fn number(digits: Seq<char>) -> nat
    decreases digits.len(),
{
    if digits.len() == 0 {
        0
    } else {
        10 * number(digits.drop_last()) + digit_value(digits.last())
    }
}

/// `text` without a plus sign at its start.
pub open spec fn unsigned(text: Seq<char>) -> Seq<char> {
    if text.len() > 0 && text[0] == '+' {
        text.drop_first()
    } else {
        text
    }
}

/// The score a text stands for. White space around it does not count and
/// a plus sign may lead it. If what is left is one or more digits that
/// spell a number within the range of `usize`, the score is that number;
/// every other text stands for 0.
pub open spec fn stored_score(text: Seq<char>) -> usize {
    let digits = unsigned(trimmed(text));
    if digits.len() > 0 && all_digits(digits) && number(digits) <= usize::MAX {
        number(digits) as usize
    } else {
        0
    }
}

/// The number spelled by the first digits of a text of digits is no larger
/// than the number spelled by all of them.
pub proof fn lemma_number_grows(digits: Seq<char>, k: int)
    requires
        all_digits(digits),
        0 <= k <= digits.len(),
    ensures
        number(digits.take(k)) <= number(digits),
    decreases digits.len(),
{
    if k == digits.len() {
        assert(digits.take(k) =~= digits);
    } else {
        let front = digits.drop_last();
        assert(front.take(k) =~= digits.take(k));
        assert(all_digits(front)) by {
            assert forall|i: int| 0 <= i < front.len() implies is_digit(#[trigger] front[i]) by {
                assert(front[i] == digits[i]);
            }
        }
        lemma_number_grows(front, k);
        assert(is_digit(digits[digits.len() - 1]));
    }
}

/// Reads the best score from the text of its file. A text that does not
/// spell a score stands for 0.
pub fn parse_high_score(text: &str) -> (score: usize)
    ensures
        score == stored_score(text@),
{
    let chars: Vec<char> = chars_of(text);
    let (from, to) = trim_bounds(chars.as_slice());
    let start: usize = if from < to && chars[from] == '+' {
        from + 1
    } else {
        from
    };
    let ghost digits = unsigned(trimmed(text@));
    proof {
        assert(digits =~= chars@.subrange(start as int, to as int));
    }
    if start == to {
        return 0;
    }
    let mut value: usize = 0;
    let mut i: usize = start;
    while i < to
        invariant
            start <= i <= to <= chars@.len(),
            digits == chars@.subrange(start as int, to as int),
            digits == unsigned(trimmed(text@)),
            digits.len() > 0,
            all_digits(digits.take(i - start)),
            value == number(digits.take(i - start)),
        decreases to - i,
    {
        let c: char = chars[i];
        let n: u32 = c as u32;
        proof {
            assert(digits[i - start] == c);
            assert(digits.take(i - start + 1).drop_last() =~= digits.take(i - start));
        }
        if n < 48 || n > 57 {
            proof {
                assert(!is_digit(digits[i - start]));
            }
            return 0;
        }
        let d: usize = (n - 48) as usize;
        proof {
            assert(all_digits(digits.take(i - start + 1))) by {
                assert forall|j: int| 0 <= j < i - start + 1 implies is_digit(
                    #[trigger] digits.take(i - start + 1)[j],
                ) by {
                    if j < i - start {
                        assert(digits.take(i - start)[j] == digits[j]);
                        assert(is_digit(digits.take(i - start)[j]));
                    }
                }
            }
        }
        if value > (usize::MAX - d) / 10 {
            proof {
                if all_digits(digits) {
                    lemma_number_grows(digits, i - start + 1);
                }
            }
            return 0;
        }
        value = value * 10 + d;
        i += 1;
    }
    proof {
        assert(digits.take(to - start) =~= digits);
    }
    value
}

} // verus!
