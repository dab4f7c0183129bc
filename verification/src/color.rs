//! Coloring the text of a formula.

use crate::floats::{is_float, is_float_text};
use crate::paint::{painted, rgb, rgb_code};
use crate::text::chars_of;
use vstd::prelude::*;

verus! {

/// Whether a character is alphabetic in the sense of Unicode: what
/// `char::is_alphabetic` answers.
pub uninterp spec fn unicode_alphabetic(c: char) -> bool;

/// `char::is_alphabetic` tells whether a character has the Unicode property
/// `Alphabetic`. The answer depends on the character alone. Among the ASCII
/// characters these are the letters.
pub assume_specification[ char::is_alphabetic ](c: char) -> (r: bool)
    ensures
        r == unicode_alphabetic(c),
        c <= '\u{7f}' ==> r == crate::text::is_letter(c),
;

/// Whether output is colored.
#[derive(Debug, Clone, Copy)]
pub struct ColorConfig {
    pub enabled: bool,
}

impl ColorConfig {
    /// Colors switched on or off.
    pub fn new(enabled: bool) -> (r: Self)
        ensures
            r.enabled == enabled,
    {
        ColorConfig { enabled }
    }

    /// Colors as the surroundings ask: on where `NO_COLOR` is not set and the
    /// output goes to a terminal.
    pub fn auto(no_color_set: bool, stdout_is_terminal: bool) -> (r: Self)
        ensures
            r.enabled == (!no_color_set && stdout_is_terminal),
    {
        ColorConfig { enabled: !no_color_set && stdout_is_terminal }
    }

    /// Colors switched off.
    pub fn disabled() -> (r: Self)
        ensures
            !r.enabled,
    {
        ColorConfig { enabled: false }
    }
}

/// The color of a response: RGB 163, 190, 140.
pub open spec fn response_text(t: Seq<char>) -> Seq<char> {
    painted(rgb_code(163, 190, 140), t)
}

/// The color of a term: RGB 235, 203, 139.
pub open spec fn term_text(t: Seq<char>) -> Seq<char> {
    painted(rgb_code(235, 203, 139), t)
}

/// The color of an operator: RGB 208, 135, 112.
pub open spec fn operator_text(t: Seq<char>) -> Seq<char> {
    painted(rgb_code(208, 135, 112), t)
}

/// Whether every character of a text is alphabetic.
pub open spec fn all_alphabetic(t: Seq<char>) -> bool {
    forall|i: int| 0 <= i < t.len() ==> unicode_alphabetic(#[trigger] t[i])
}

/// Whether a text is one of the operators `~ + * : - ^`.
pub open spec fn is_operator_text(t: Seq<char>) -> bool {
    t == seq!['~'] || t == seq!['+'] || t == seq!['*'] || t == seq![':'] || t == seq!['-'] || t
        == seq!['^']
}

/// The colored form of a token: a number as a term, an operator as an
/// operator, a word of letters on the left of `~` as a response, everything
/// else as a term.
pub open spec fn token_text(t: Seq<char>, is_response: bool) -> Seq<char> {
    if is_float_text(t) {
        term_text(t)
    } else if is_operator_text(t) {
        operator_text(t)
    } else if all_alphabetic(t) && t.len() > 0 && is_response {
        response_text(t)
    } else {
        term_text(t)
    }
}

/// The state of coloring a formula: what is written, the token that is being
/// read, and whether `~` is still to come.
pub struct Scan {
    pub out: Seq<char>,
    pub word: Seq<char>,
    pub lhs: bool,
}

/// What is written once the token that is being read is written too.
pub open spec fn flushed(st: Scan) -> Seq<char> {
    if st.word.len() == 0 {
        st.out
    } else {
        st.out + token_text(st.word, st.lhs)
    }
}

/// Whether a character ends a token and is written as an operator.
pub open spec fn is_mark(c: char) -> bool {
    c == '~' || c == '+' || c == '*' || c == ':' || c == '-' || c == '^' || c == '(' || c == ')'
}

/// The state behind one more character: an operator or a parenthesis ends the
/// token and is written in the color of operators, a blank ends the token and
/// is written as it is, every other character goes to the token. `~` ends the
/// left-hand side.
pub open spec fn step(st: Scan, c: char) -> Scan {
    if is_mark(c) {
        Scan {
            out: flushed(st) + operator_text(seq![c]),
            word: Seq::empty(),
            lhs: st.lhs && c != '~',
        }
    } else if c == ' ' {
        Scan { out: flushed(st).push(' '), word: Seq::empty(), lhs: st.lhs }
    } else {
        Scan { out: st.out, word: st.word.push(c), lhs: st.lhs }
    }
}

/// The state behind a text.
pub open spec fn scan(t: Seq<char>) -> Scan
    decreases t.len(),
{
    if t.len() == 0 {
        Scan { out: Seq::empty(), word: Seq::empty(), lhs: true }
    } else {
        step(scan(t.drop_last()), t.last())
    }
}

/// The colored form of the text of a formula.
pub open spec fn colored_formula(t: Seq<char>) -> Seq<char> {
    flushed(scan(t))
}

/// A printer that colors the parts of a formula.
#[derive(Debug, Clone, Copy)]
pub struct Color {
    config: ColorConfig,
}

fn one_char(c: char) -> (r: String)
    ensures
        r@ == seq![c],
{
    let mut s = String::new();
    s.push(c);
    assert(s@ =~= seq![c]);
    s
}

impl Color {
    /// Whether this printer colors.
    pub closed spec fn enabled(&self) -> bool {
        self.config.enabled
    }

    pub fn new(config: ColorConfig) -> (r: Self)
        ensures
            r.enabled() == config.enabled,
    {
        Color { config }
    }

    /// The printer that the surroundings ask for.
    pub fn default(no_color_set: bool, stdout_is_terminal: bool) -> (r: Self)
        ensures
            r.enabled() == (!no_color_set && stdout_is_terminal),
    {
        Color { config: ColorConfig::auto(no_color_set, stdout_is_terminal) }
    }

    /// The printer that does not color.
    pub fn disabled() -> (r: Self)
        ensures
            !r.enabled(),
    {
        Color { config: ColorConfig::disabled() }
    }

    /// A response variable.
    pub fn response(&self, s: &str) -> (r: String)
        ensures
            r@ == if self.enabled() {
                response_text(s@)
            } else {
                s@
            },
    {
        if self.config.enabled {
            rgb::<163, 190, 140>(s)
        } else {
            String::from_str(s)
        }
    }

    /// A term.
    pub fn term(&self, s: &str) -> (r: String)
        ensures
            r@ == if self.enabled() {
                term_text(s@)
            } else {
                s@
            },
    {
        if self.config.enabled {
            rgb::<235, 203, 139>(s)
        } else {
            String::from_str(s)
        }
    }

    /// An operator.
    pub fn operator(&self, s: &str) -> (r: String)
        ensures
            r@ == if self.enabled() {
                operator_text(s@)
            } else {
                s@
            },
    {
        if self.config.enabled {
            rgb::<208, 135, 112>(s)
        } else {
            String::from_str(s)
        }
    }

    /// A function name, colored as a term.
    pub fn function(&self, s: &str) -> (r: String)
        ensures
            r@ == if self.enabled() {
                term_text(s@)
            } else {
                s@
            },
    {
        self.term(s)
    }

    /// A group expression, colored as a term.
    pub fn group(&self, s: &str) -> (r: String)
        ensures
            r@ == if self.enabled() {
                term_text(s@)
            } else {
                s@
            },
    {
        self.term(s)
    }

    /// A number, colored as a term.
    pub fn number(&self, s: &str) -> (r: String)
        ensures
            r@ == if self.enabled() {
                term_text(s@)
            } else {
                s@
            },
    {
        self.term(s)
    }

    /// A token of a formula.
    pub fn color_token(&self, token: &str, is_response: bool) -> (r: String)
        ensures
            r@ == if self.enabled() {
                token_text(token@, is_response)
            } else {
                token@
            },
    {
        let cs = chars_of(token);
        if is_float(&cs) {
            return self.number(token);
        }
        if cs.len() == 1 && (cs[0] == '~' || cs[0] == '+' || cs[0] == '*' || cs[0] == ':' || cs[0]
            == '-' || cs[0] == '^') {
            assert(cs@ =~= seq![cs@[0]]);
            return self.operator(token);
        }
        proof {
            if is_operator_text(cs@) {
                assert(cs@.len() == 1);
                assert(cs@[0] == '~' || cs@[0] == '+' || cs@[0] == '*' || cs@[0] == ':' || cs@[0]
                    == '-' || cs@[0] == '^');
            }
        }
        if is_response && cs.len() > 0 {
            let mut letters = true;
            let mut i: usize = 0;
            while i < cs.len() && letters
                invariant
                    i <= cs.len(),
                    letters ==> forall|j: int| 0 <= j < i ==> unicode_alphabetic(#[trigger] cs@[j]),
                    !letters ==> !all_alphabetic(cs@),
                decreases cs.len() - i,
            {
                if !cs[i].is_alphabetic() {
                    letters = false;
                }
                i += 1;
            }
            if letters {
                return self.response(token);
            }
        }
        self.term(token)
    }

    /// The text of a formula with its parts colored.
    pub fn formula(&self, formula: &str) -> (r: String)
        ensures
            r@ == if self.enabled() {
                colored_formula(formula@)
            } else {
                formula@
            },
    {
        if !self.config.enabled {
            return String::from_str(formula);
        }
        let cs = chars_of(formula);
        let mut result = String::new();
        let mut current = String::new();
        let mut in_lhs = true;
        let mut i: usize = 0;
        assert(cs@.take(0) =~= Seq::<char>::empty());
        while i < cs.len()
            invariant
                i <= cs.len(),
                self.enabled(),
                scan(cs@.take(i as int)) == (Scan { out: result@, word: current@, lhs: in_lhs }),
            decreases cs.len() - i,
        {
            proof {
                assert(cs@.take(i + 1).drop_last() =~= cs@.take(i as int));
                assert(cs@.take(i + 1).last() == cs@[i as int]);
            }
            let c = cs[i];
            if c == '~' || c == '+' || c == '*' || c == ':' || c == '-' || c == '^' || c == '('
                || c == ')' {
                if current.as_str().unicode_len() > 0 {
                    let token = self.color_token(current.as_str(), in_lhs);
                    result.append(token.as_str());
                    current = String::new();
                }
                if c == '~' {
                    in_lhs = false;
                }
                let mark = one_char(c);
                let painted = self.operator(mark.as_str());
                result.append(painted.as_str());
            } else if c == ' ' {
                if current.as_str().unicode_len() > 0 {
                    let token = self.color_token(current.as_str(), in_lhs);
                    result.append(token.as_str());
                    current = String::new();
                }
                result.push(' ');
            } else {
                current.push(c);
            }
            i += 1;
        }
        assert(cs@.take(cs.len() as int) =~= cs@);
        if current.as_str().unicode_len() > 0 {
            let token = self.color_token(current.as_str(), in_lhs);
            result.append(token.as_str());
        }
        result
    }
}

} // verus!
