//! The lexical layer of the formula grammar: blanks, literal text,
//! identifiers, numbers, booleans and quoted strings.
//!
//! Every recognizer reads the input from a position and either fails or gives
//! a value and the position behind what it read. Nothing is ever read twice in
//! another way: where a recognizer succeeds, its result stands.

use crate::ast::Text;
use crate::text::{
    chars_of, digit, ident_part, ident_start, is_digit, is_ident_part, is_ident_start, is_space,
    is_whitespace, string_of,
};
use vstd::prelude::*;

verus! {

/// Whether `p` is a position of `s` at or behind `pos`.
pub open spec fn within(s: Seq<char>, pos: int, p: int) -> bool {
    0 <= pos <= p <= s.len()
}

/// The first position at or behind `pos` that holds no blank.
pub open spec fn skip_space(s: Seq<char>, pos: int) -> int
    decreases s.len() - pos,
{
    if 0 <= pos < s.len() && is_space(s[pos]) {
        skip_space(s, pos + 1)
    } else {
        pos
    }
}

/// Whether the text `lit` stands at `pos`.
pub open spec fn eats(s: Seq<char>, pos: int, lit: Seq<char>) -> bool {
    0 <= pos && pos + lit.len() <= s.len() && s.subrange(pos, pos + lit.len()) == lit
}

/// Whether the character `c` stands at `pos`.
pub open spec fn has(s: Seq<char>, pos: int, c: char) -> bool {
    0 <= pos < s.len() && s[pos] == c
}

/// The end of the run of identifier characters that starts at `pos`.
pub open spec fn ident_end(s: Seq<char>, pos: int) -> int
    decreases s.len() - pos,
{
    if 0 <= pos < s.len() && is_ident_part(s[pos]) {
        ident_end(s, pos + 1)
    } else {
        pos
    }
}

/// An identifier: a letter or `_`, then letters, digits and `_`.
pub open spec fn ident_at(s: Seq<char>, pos: int) -> Option<(Text, int)> {
    if 0 <= pos < s.len() && is_ident_start(s[pos]) {
        let end = ident_end(s, pos + 1);
        if within(s, pos + 1, end) {
            Some((s.subrange(pos, end), end))
        } else {
            None
        }
    } else {
        None
    }
}

/// The further parts `.name` of a dotted identifier.
pub open spec fn dotted_rest(s: Seq<char>, pos: int, acc: Text) -> (Text, int)
    decreases s.len() - pos,
{
    if has(s, pos, '.') {
        match ident_at(s, pos + 1) {
            Some((name, p)) => if within(s, pos + 1, p) {
                dotted_rest(s, p, acc + seq!['.'] + name)
            } else {
                (acc, pos)
            },
            None => (acc, pos),
        }
    } else {
        (acc, pos)
    }
}

/// A dotted identifier such as `np.log`.
pub open spec fn dotted_at(s: Seq<char>, pos: int) -> Option<(Text, int)> {
    match ident_at(s, pos) {
        Some((name, p)) => Some(dotted_rest(s, p, name)),
        None => None,
    }
}

/// The end of the run of digits that starts at `pos`.
pub open spec fn digits_end(s: Seq<char>, pos: int) -> int
    decreases s.len() - pos,
{
    if 0 <= pos < s.len() && is_digit(s[pos]) {
        digits_end(s, pos + 1)
    } else {
        pos
    }
}

/// A text without the zeros at its end.
pub open spec fn strip_zeros(t: Text) -> Text
    decreases t.len(),
{
    if t.len() > 0 && t.last() == '0' {
        strip_zeros(t.drop_last())
    } else {
        t
    }
}

/// The shortest decimal text of the number with the given whole part and
/// fraction digits.
pub open spec fn shortest(whole: Text, fraction: Text) -> Text {
    let kept = strip_zeros(fraction);
    if kept.len() == 0 {
        whole
    } else {
        whole + seq!['.'] + kept
    }
}

/// A number: `0` or digits that start with none, then a point and digits or
/// nothing. The value is the number's shortest decimal text.
pub open spec fn number_at(s: Seq<char>, pos: int) -> Option<(Text, int)> {
    if 0 <= pos < s.len() && is_digit(s[pos]) {
        let whole_end = if s[pos] == '0' {
            pos + 1
        } else {
            digits_end(s, pos + 1)
        };
        if within(s, pos + 1, whole_end) {
            let whole = s.subrange(pos, whole_end);
            if has(s, whole_end, '.') && whole_end + 1 < s.len() && is_digit(s[whole_end + 1]) {
                let end = digits_end(s, whole_end + 2);
                if within(s, whole_end + 2, end) {
                    Some((shortest(whole, s.subrange(whole_end + 1, end)), end))
                } else {
                    None
                }
            } else {
                Some((whole, whole_end))
            }
        } else {
            None
        }
    } else {
        None
    }
}

/// Whether the word stands at `pos` and no identifier character follows it.
pub open spec fn keyword_at(s: Seq<char>, pos: int, word: Seq<char>) -> bool {
    eats(s, pos, word) && !(pos + word.len() < s.len() && is_ident_part(s[pos + word.len()]))
}

/// A boolean: the word `true`, `false`, `TRUE` or `FALSE`.
pub open spec fn boolean_at(s: Seq<char>, pos: int) -> Option<(bool, int)> {
    if keyword_at(s, pos, "true"@) {
        Some((true, pos + "true"@.len()))
    } else if keyword_at(s, pos, "false"@) {
        Some((false, pos + "false"@.len()))
    } else if keyword_at(s, pos, "TRUE"@) {
        Some((true, pos + "TRUE"@.len()))
    } else if keyword_at(s, pos, "FALSE"@) {
        Some((false, pos + "FALSE"@.len()))
    } else {
        None
    }
}

/// The characters of a quoted string from `pos` on, up to the first `"` that
/// no backslash stands before. A backslash gives the character behind it.
pub open spec fn string_body(s: Seq<char>, pos: int, acc: Text) -> (Text, int)
    decreases s.len() - pos,
{
    if 0 <= pos < s.len() && s[pos] != '"' && s[pos] != '\\' {
        string_body(s, pos + 1, acc.push(s[pos]))
    } else if 0 <= pos && pos + 1 < s.len() && s[pos] == '\\' {
        string_body(s, pos + 2, acc.push(s[pos + 1]))
    } else {
        (acc, pos)
    }
}

/// A string in double quotes.
pub open spec fn string_at(s: Seq<char>, pos: int) -> Option<(Text, int)> {
    if has(s, pos, '"') {
        let body = string_body(s, pos + 1, Seq::empty());
        if has(s, body.1, '"') {
            Some((body.0, body.1 + 1))
        } else {
            None
        }
    } else {
        None
    }
}

// ---------------------------------------------------------------------------
// Reading
// ---------------------------------------------------------------------------

/// Whether a read agrees with what the grammar says stands there.
pub open spec fn text_agrees(r: Option<(String, usize)>, m: Option<(Text, int)>) -> bool {
    match r {
        Some((t, p)) => m == Some((t@, p as int)),
        None => m is None,
    }
}

pub fn skip_whitespace(s: &Vec<char>, pos: usize) -> (r: usize)
    requires
        pos <= s.len(),
    ensures
        r as int == skip_space(s@, pos as int),
        pos <= r <= s.len(),
{
    let mut p = pos;
    while p < s.len() && is_whitespace(s[p])
        invariant
            pos <= p <= s.len(),
            skip_space(s@, p as int) == skip_space(s@, pos as int),
        decreases s.len() - p,
    {
        p += 1;
    }
    p
}

/// Reads the text `lit`.
pub fn eat(s: &Vec<char>, pos: usize, lit: &str) -> (r: Option<usize>)
    requires
        pos <= s.len(),
    ensures
        match r {
            Some(p) => eats(s@, pos as int, lit@) && p == pos + lit@.len() && p <= s.len(),
            None => !eats(s@, pos as int, lit@),
        },
{
    let want = chars_of(lit);
    if want.len() > s.len() - pos {
        return None;
    }
    let mut i: usize = 0;
    while i < want.len()
        invariant
            i <= want.len(),
            pos + want.len() <= s.len(),
            want@ == lit@,
            s@.subrange(pos as int, pos + i) == want@.subrange(0, i as int),
        decreases want.len() - i,
    {
        if s[pos + i] != want[i] {
            proof {
                let whole = s@.subrange(pos as int, pos + want.len());
                assert(whole[i as int] == s@[pos + i]);
            }
            return None;
        }
        proof {
            assert(s@.subrange(pos as int, pos + i + 1) =~= s@.subrange(pos as int, pos + i).push(
                s@[pos + i],
            ));
            assert(want@.subrange(0, i + 1) =~= want@.subrange(0, i as int).push(want@[i as int]));
        }
        i += 1;
    }
    assert(want@.subrange(0, want.len() as int) =~= want@);
    Some(pos + want.len())
}

/// Reads the character `c`.
pub fn eat_char(s: &Vec<char>, pos: usize, c: char) -> (r: bool)
    requires
        pos <= s.len(),
    ensures
        r == has(s@, pos as int, c),
{
    pos < s.len() && s[pos] == c
}

fn run_of_ident(s: &Vec<char>, pos: usize) -> (r: usize)
    requires
        pos <= s.len(),
    ensures
        r as int == ident_end(s@, pos as int),
        pos <= r <= s.len(),
{
    let mut p = pos;
    while p < s.len() && ident_part(s[p])
        invariant
            pos <= p <= s.len(),
            ident_end(s@, p as int) == ident_end(s@, pos as int),
        decreases s.len() - p,
    {
        p += 1;
    }
    p
}

pub fn run_of_digits(s: &Vec<char>, pos: usize) -> (r: usize)
    requires
        pos <= s.len(),
    ensures
        r as int == digits_end(s@, pos as int),
        pos <= r <= s.len(),
{
    let mut p = pos;
    while p < s.len() && digit(s[p])
        invariant
            pos <= p <= s.len(),
            digits_end(s@, p as int) == digits_end(s@, pos as int),
        decreases s.len() - p,
    {
        p += 1;
    }
    p
}

pub fn parse_ident(s: &Vec<char>, pos: usize) -> (r: Option<(String, usize)>)
    requires
        pos <= s.len(),
    ensures
        text_agrees(r, ident_at(s@, pos as int)),
        r matches Some((_, p)) ==> pos < p <= s.len(),
{
    if pos < s.len() && ident_start(s[pos]) {
        let end = run_of_ident(s, pos + 1);
        Some((string_of(s, pos, end), end))
    } else {
        None
    }
}

pub fn parse_dotted(s: &Vec<char>, pos: usize) -> (r: Option<(String, usize)>)
    requires
        pos <= s.len(),
    ensures
        text_agrees(r, dotted_at(s@, pos as int)),
        r matches Some((_, p)) ==> pos < p <= s.len(),
{
    match parse_ident(s, pos) {
        None => None,
        Some((first, start)) => {
            let mut name = first;
            let mut p = start;
            let mut done = false;
            while !done
                invariant
                    pos < p <= s.len(),
                    dotted_rest(s@, p as int, name@) == dotted_rest(s@, start as int, first@),
                    done ==> dotted_rest(s@, p as int, name@) == (name@, p as int),
                decreases s.len() - p, if done { 0nat } else { 1nat },
            {
                if !eat_char(s, p, '.') {
                    done = true;
                } else {
                    match parse_ident(s, p + 1) {
                        None => {
                            done = true;
                        },
                        Some((part, next)) => {
                            let ghost before = name@;
                            name.push('.');
                            name.append(part.as_str());
                            assert(name@ =~= before + seq!['.'] + part@);
                            p = next;
                        },
                    }
                }
            }
            Some((name, p))
        },
    }
}

fn without_zeros(s: &Vec<char>, from: usize, to: usize) -> (r: usize)
    requires
        from <= to <= s.len(),
    ensures
        from <= r <= to,
        s@.subrange(from as int, r as int) == strip_zeros(s@.subrange(from as int, to as int)),
{
    let mut end = to;
    while end > from && s[end - 1] == '0'
        invariant
            from <= end <= to <= s.len(),
            strip_zeros(s@.subrange(from as int, end as int)) == strip_zeros(
                s@.subrange(from as int, to as int),
            ),
        decreases end,
    {
        proof {
            let t = s@.subrange(from as int, end as int);
            assert(t.last() == s@[end - 1]);
            assert(t.drop_last() =~= s@.subrange(from as int, end - 1));
        }
        end -= 1;
    }
    proof {
        let t = s@.subrange(from as int, end as int);
        if t.len() > 0 {
            assert(t.last() == s@[end - 1]);
        }
    }
    end
}

pub fn parse_number(s: &Vec<char>, pos: usize) -> (r: Option<(String, usize)>)
    requires
        pos <= s.len(),
    ensures
        text_agrees(r, number_at(s@, pos as int)),
        r matches Some((_, p)) ==> pos < p <= s.len(),
{
    if pos < s.len() && digit(s[pos]) {
        let whole_end = if s[pos] == '0' {
            pos + 1
        } else {
            run_of_digits(s, pos + 1)
        };
        let mut text = string_of(s, pos, whole_end);
        if eat_char(s, whole_end, '.') && whole_end + 1 < s.len() && digit(s[whole_end + 1]) {
            let end = run_of_digits(s, whole_end + 2);
            let kept = without_zeros(s, whole_end + 1, end);
            let ghost whole = text@;
            if kept > whole_end + 1 {
                text.push('.');
                let fraction = string_of(s, whole_end + 1, kept);
                text.append(fraction.as_str());
                assert(text@ =~= whole + seq!['.'] + fraction@);
            }
            assert(text@ == shortest(whole, s@.subrange(whole_end + 1, end as int)));
            Some((text, end))
        } else {
            Some((text, whole_end))
        }
    } else {
        None
    }
}

/// Reads the word `word` where no identifier character follows it.
pub fn eat_keyword(s: &Vec<char>, pos: usize, word: &str) -> (r: Option<usize>)
    requires
        pos <= s.len(),
    ensures
        match r {
            Some(p) => keyword_at(s@, pos as int, word@) && p == pos + word@.len() && p <= s.len(),
            None => !keyword_at(s@, pos as int, word@),
        },
{
    match eat(s, pos, word) {
        Some(p) => {
            if p < s.len() && ident_part(s[p]) {
                None
            } else {
                Some(p)
            }
        },
        None => None,
    }
}

pub fn parse_boolean(s: &Vec<char>, pos: usize) -> (r: Option<(bool, usize)>)
    requires
        pos <= s.len(),
    ensures
        match r {
            Some((b, p)) => boolean_at(s@, pos as int) == Some((b, p as int)),
            None => boolean_at(s@, pos as int) is None,
        },
        r matches Some((_, p)) ==> pos <= p <= s.len(),
{
    match eat_keyword(s, pos, "true") {
        Some(p) => Some((true, p)),
        None => match eat_keyword(s, pos, "false") {
            Some(p) => Some((false, p)),
            None => match eat_keyword(s, pos, "TRUE") {
                Some(p) => Some((true, p)),
                None => match eat_keyword(s, pos, "FALSE") {
                    Some(p) => Some((false, p)),
                    None => None,
                },
            },
        },
    }
}

pub fn parse_string(s: &Vec<char>, pos: usize) -> (r: Option<(String, usize)>)
    requires
        pos <= s.len(),
    ensures
        text_agrees(r, string_at(s@, pos as int)),
        r matches Some((_, p)) ==> pos < p <= s.len(),
{
    if !eat_char(s, pos, '"') {
        return None;
    }
    let mut text = String::new();
    let mut p = pos + 1;
    let mut done = false;
    while !done
        invariant
            pos < p <= s.len(),
            string_body(s@, p as int, text@) == string_body(s@, pos + 1, Seq::empty()),
            done ==> string_body(s@, p as int, text@) == (text@, p as int),
        decreases s.len() - p, if done { 0nat } else { 1nat },
    {
        if p < s.len() && s[p] != '"' && s[p] != '\\' {
            text.push(s[p]);
            p += 1;
        } else if p < s.len() && s[p] == '\\' && p + 1 < s.len() {
            text.push(s[p + 1]);
            p += 2;
        } else {
            done = true;
        }
    }
    if eat_char(s, p, '"') {
        Some((text, p + 1))
    } else {
        None
    }
}

} // verus!
