//! Cleaning column names.

use crate::text::{ascii_lower, chars_of, is_digit, is_letter, string_of, to_ascii_lowercase};
use vstd::prelude::*;

verus! {

/// Whether a character is alphanumeric in the sense of Unicode: what
/// `char::is_alphanumeric` answers.
pub uninterp spec fn unicode_alphanumeric(c: char) -> bool;

/// `char::is_alphanumeric` tells whether a character has the Unicode property
/// `Alphabetic` or is a number (general categories Nd, Nl, No). The answer
/// depends on the character alone. Among the ASCII characters these are the
/// letters and the digits.
pub assume_specification[ char::is_alphanumeric ](c: char) -> (r: bool)
    ensures
        r == unicode_alphanumeric(c),
        c <= '\u{7f}' ==> r == (is_letter(c) || is_digit(c)),
;

/// A character that a clean name replaces by `_`: every character that is
/// neither alphanumeric nor `_`, so every blank and every punctuation mark.
pub open spec fn is_special(c: char) -> bool {
    !unicode_alphanumeric(c) && c != '_'
}

/// The name with every run of special characters replaced by one `_` and
/// the other characters in lower case; and whether the last character
/// written stands for special ones.
pub open spec fn squeezed(name: Seq<char>) -> (Seq<char>, bool)
    decreases name.len(),
{
    if name.len() == 0 {
        (Seq::empty(), false)
    } else {
        let before = squeezed(name.drop_last());
        let c = name.last();
        if is_special(c) {
            if before.1 {
                before
            } else {
                (before.0.push('_'), true)
            }
        } else {
            (before.0.push(ascii_lower(c)), false)
        }
    }
}

/// The number of `_` at the start of a text.
pub open spec fn leading_underscores(t: Seq<char>) -> nat
    decreases t.len(),
{
    if t.len() > 0 && t[0] == '_' {
        1 + leading_underscores(t.drop_first())
    } else {
        0
    }
}

/// The number of `_` at the end of a text.
pub open spec fn trailing_underscores(t: Seq<char>) -> nat
    decreases t.len(),
{
    if t.len() > 0 && t.last() == '_' {
        1 + trailing_underscores(t.drop_last())
    } else {
        0
    }
}

/// A text without the `_` at its start and at its end.
pub open spec fn trimmed(t: Seq<char>) -> Seq<char> {
    let from = leading_underscores(t);
    if from == t.len() {
        Seq::empty()
    } else {
        t.subrange(from as int, t.len() - trailing_underscores(t))
    }
}

/// The clean form of a column name: lower case, every run of blanks,
/// punctuation and other special characters as one `_`, no `_` at either
/// end, and `column` for a name of which nothing is left.
pub open spec fn clean_name(name: Seq<char>) -> Seq<char> {
    let t = trimmed(squeezed(name).0);
    if t.len() == 0 {
        "column"@
    } else {
        t
    }
}

/// Whether a character is a lower-case ASCII letter, a digit or `_`.
pub open spec fn is_clean_char(c: char) -> bool {
    'a' <= c <= 'z' || is_digit(c) || c == '_'
}

/// Whether a text is made of lower-case ASCII letters, digits and `_`.
pub open spec fn is_clean(t: Seq<char>) -> bool {
    forall|i: int| 0 <= i < t.len() ==> is_clean_char(#[trigger] t[i])
}

/// Whether a text is made of ASCII characters.
pub open spec fn is_ascii(t: Seq<char>) -> bool {
    forall|i: int| 0 <= i < t.len() ==> (#[trigger] t[i]) <= '\u{7f}'
}

proof fn lemma_leading(t: Seq<char>)
    ensures
        leading_underscores(t) <= t.len(),
        forall|i: int| 0 <= i < leading_underscores(t) ==> #[trigger] t[i] == '_',
        leading_underscores(t) < t.len() ==> t[leading_underscores(t) as int] != '_',
    decreases t.len(),
{
    if t.len() > 0 && t[0] == '_' {
        let rest = t.drop_first();
        lemma_leading(rest);
        assert forall|i: int| 0 <= i < leading_underscores(t) implies #[trigger] t[i] == '_' by {
            if i > 0 {
                assert(rest[i - 1] == t[i]);
            }
        }
        if leading_underscores(t) < t.len() {
            assert(rest[leading_underscores(rest) as int] == t[leading_underscores(t) as int]);
        }
    }
}

proof fn lemma_trailing(t: Seq<char>)
    ensures
        trailing_underscores(t) <= t.len(),
        forall|i: int| t.len() - trailing_underscores(t) <= i < t.len() ==> #[trigger] t[i] == '_',
        trailing_underscores(t) < t.len() ==> t[t.len() - trailing_underscores(t) - 1] != '_',
    decreases t.len(),
{
    if t.len() > 0 && t.last() == '_' {
        let rest = t.drop_last();
        lemma_trailing(rest);
        assert forall|i: int| t.len() - trailing_underscores(t) <= i < t.len() implies #[trigger] t[i]
            == '_' by {
            if i < t.len() - 1 {
                assert(rest[i] == t[i]);
            }
        }
        if trailing_underscores(t) < t.len() {
            assert(rest[rest.len() - trailing_underscores(rest) - 1] == t[t.len()
                - trailing_underscores(t) - 1]);
        }
    }
}

/// A clean name is never empty and has no `_` at either end.
pub proof fn clean_name_has_no_outer_underscores(name: Seq<char>)
    ensures
        clean_name(name).len() > 0,
        clean_name(name)[0] != '_',
        clean_name(name).last() != '_',
{
    reveal_strlit("column");
    let t = squeezed(name).0;
    lemma_leading(t);
    lemma_trailing(t);
    let from = leading_underscores(t) as int;
    let back = trailing_underscores(t) as int;
    if from < t.len() {
        assert(from < t.len() - back) by {
            if from >= t.len() - back {
                assert(t[from] == '_');
            }
        }
        let out = t.subrange(from, t.len() - back);
        assert(out[0] == t[from]);
        assert(out.last() == t[t.len() - back - 1]);
    }
}

/// The clean form of a column name. Of a name in ASCII it is made of
/// lower-case letters, digits and `_` only.
pub fn make_clean_names(name: &str) -> (r: String)
    ensures
        r@ == clean_name(name@),
        is_ascii(name@) ==> is_clean(r@),
{
    let cs = chars_of(name);
    let mut out: Vec<char> = Vec::new();
    let mut prev_was_underscore = false;
    let mut i: usize = 0;
    assert(cs@.take(0) =~= Seq::<char>::empty());
    while i < cs.len()
        invariant
            i <= cs.len(),
            (out@, prev_was_underscore) == squeezed(cs@.take(i as int)),
            is_ascii(cs@) ==> is_clean(out@),
        decreases cs.len() - i,
    {
        proof {
            assert(cs@.take(i + 1).drop_last() =~= cs@.take(i as int));
            assert(cs@.take(i + 1).last() == cs@[i as int]);
            if is_ascii(cs@) {
                assert(cs@[i as int] <= '\u{7f}');
            }
        }
        let c = cs[i];
        if c.is_alphanumeric() || c == '_' {
            out.push(to_ascii_lowercase(c));
            prev_was_underscore = false;
        } else if !prev_was_underscore {
            out.push('_');
            prev_was_underscore = true;
        }
        i += 1;
    }
    assert(cs@.take(cs.len() as int) =~= cs@);
    let mut from: usize = 0;
    assert(out@.subrange(0, out@.len() as int) =~= out@);
    while from < out.len() && out[from] == '_'
        invariant
            from <= out.len(),
            leading_underscores(out@) == from + leading_underscores(
                out@.subrange(from as int, out@.len() as int),
            ),
        decreases out.len() - from,
    {
        proof {
            let rest = out@.subrange(from as int, out@.len() as int);
            assert(rest[0] == out@[from as int]);
            assert(rest.drop_first() =~= out@.subrange(from + 1, out@.len() as int));
        }
        from += 1;
    }
    proof {
        assert(out@.subrange(0, out@.len() as int) =~= out@);
        let rest = out@.subrange(from as int, out@.len() as int);
        if from < out.len() {
            assert(rest[0] == out@[from as int]);
        }
        assert(leading_underscores(out@) == from);
    }
    if from == out.len() {
        proof {
            reveal_strlit("column");
        }
        return String::from_str("column");
    }
    let mut to: usize = out.len();
    assert(out@.subrange(0, out@.len() as int) =~= out@);
    while to > from && out[to - 1] == '_'
        invariant
            from < out.len(),
            from < to <= out.len(),
            out@[from as int] != '_',
            trailing_underscores(out@) == (out.len() - to) + trailing_underscores(
                out@.subrange(0, to as int),
            ),
        decreases to,
    {
        proof {
            let head = out@.subrange(0, to as int);
            assert(head.last() == out@[to - 1]);
            assert(head.drop_last() =~= out@.subrange(0, to - 1));
        }
        to -= 1;
    }
    proof {
        let head = out@.subrange(0, to as int);
        if to > 0 {
            assert(head.last() == out@[to - 1]);
        }
        assert(to > from);
        assert(trailing_underscores(out@) == out.len() - to);
    }
    string_of(&out, from, to)
}

} // verus!
