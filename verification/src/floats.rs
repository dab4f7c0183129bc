//! The texts that stand for a floating-point number.

use crate::lex::{digits_end, run_of_digits};
use crate::text::{ascii_lower, to_ascii_lowercase};
use vstd::prelude::*;

verus! {

/// The text in lower case, as far as ASCII letters go.
pub open spec fn lowered(t: Seq<char>) -> Seq<char> {
    Seq::new(t.len(), |i: int| ascii_lower(t[i]))
}

/// Whether a sign stands at `pos`.
pub open spec fn sign_at(t: Seq<char>, pos: int) -> bool {
    0 <= pos < t.len() && (t[pos] == '+' || t[pos] == '-')
}

/// The end of the digits and point of a number that starts at `pos`: digits,
/// digits and a point and digits or none, or a point and digits. None where
/// no such number starts there.
pub open spec fn mantissa_end(t: Seq<char>, pos: int) -> Option<int> {
    let whole = digits_end(t, pos);
    if whole > pos {
        if 0 <= whole < t.len() && t[whole] == '.' {
            Some(digits_end(t, whole + 1))
        } else {
            Some(whole)
        }
    } else if 0 <= pos < t.len() && t[pos] == '.' && digits_end(t, pos + 1) > pos + 1 {
        Some(digits_end(t, pos + 1))
    } else {
        None
    }
}

/// Whether an exponent fills the text from `pos` on: `e` or `E`, a sign or
/// none, and one digit or more.
pub open spec fn exponent_fills(t: Seq<char>, pos: int) -> bool {
    0 <= pos < t.len() && (t[pos] == 'e' || t[pos] == 'E') && {
        let from = if sign_at(t, pos + 1) {
            pos + 2
        } else {
            pos + 1
        };
        from < t.len() && digits_end(t, from) == t.len()
    }
}

/// Whether a text stands for a floating-point number: a sign or none, then
/// `inf`, `infinity` or `nan` in any case, or a decimal number with an
/// exponent or none.
pub open spec fn is_float_text(t: Seq<char>) -> bool {
    let start = if sign_at(t, 0) {
        1int
    } else {
        0int
    };
    let rest = lowered(t.subrange(start, t.len() as int));
    rest == "inf"@ || rest == "infinity"@ || rest == "nan"@ || match mantissa_end(t, start) {
        Some(end) => end == t.len() || exponent_fills(t, end),
        None => false,
    }
}

fn is_word(t: &Vec<char>, start: usize, word: &str) -> (r: bool)
    requires
        start <= t.len(),
    ensures
        r == (lowered(t@.subrange(start as int, t@.len() as int)) == word@),
{
    let want = crate::text::chars_of(word);
    let ghost rest = lowered(t@.subrange(start as int, t@.len() as int));
    if t.len() - start != want.len() {
        return false;
    }
    let mut i: usize = 0;
    while i < want.len()
        invariant
            i <= want.len(),
            start + want.len() == t.len(),
            want@ == word@,
            rest == lowered(t@.subrange(start as int, t@.len() as int)),
            forall|j: int| 0 <= j < i ==> rest[j] == want@[j],
        decreases want.len() - i,
    {
        if to_ascii_lowercase(t[start + i]) != want[i] {
            assert(rest[i as int] != want@[i as int]);
            return false;
        }
        i += 1;
    }
    assert(rest =~= want@);
    true
}

/// Whether a text stands for a floating-point number.
pub fn is_float(t: &Vec<char>) -> (r: bool)
    ensures
        r == is_float_text(t@),
{
    let start: usize = if t.len() > 0 && (t[0] == '+' || t[0] == '-') {
        1
    } else {
        0
    };
    if is_word(t, start, "inf") || is_word(t, start, "infinity") || is_word(t, start, "nan") {
        return true;
    }
    let whole = run_of_digits(t, start);
    let end = if whole > start {
        if whole < t.len() && t[whole] == '.' {
            run_of_digits(t, whole + 1)
        } else {
            whole
        }
    } else if start < t.len() && t[start] == '.' {
        let after = run_of_digits(t, start + 1);
        if after > start + 1 {
            after
        } else {
            return false;
        }
    } else {
        return false;
    };
    if end == t.len() {
        return true;
    }
    if t[end] == 'e' || t[end] == 'E' {
        let from = if end + 1 < t.len() && (t[end + 1] == '+' || t[end + 1] == '-') {
            end + 2
        } else {
            end + 1
        };
        from < t.len() && run_of_digits(t, from) == t.len()
    } else {
        false
    }
}

} // verus!
