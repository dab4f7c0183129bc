//! Coloring the text of a formula in three colors: responses red, operators
//! yellow, everything else blue.

use crate::paint::{blue, painted, red, yellow};
use crate::text::chars_of;
use vstd::prelude::*;

verus! {

/// The state of coloring a text: what is written, the token that is being
/// read, and whether `~` is still to come.
pub struct Scan {
    pub out: Seq<char>,
    pub word: Seq<char>,
    pub lhs: bool,
}

/// What is written once the token that is being read is written too: the
/// token red on the left of `~`, else blue.
pub open spec fn flushed(st: Scan) -> Seq<char> {
    if st.word.len() == 0 {
        st.out
    } else if st.lhs {
        st.out + painted("31"@, st.word)
    } else {
        st.out + painted("34"@, st.word)
    }
}

pub open spec fn is_operator(c: char) -> bool {
    c == '~' || c == '+' || c == '*' || c == ':' || c == '-' || c == '^'
}

/// The state behind one more character: an operator ends the token and is
/// written in yellow, a parenthesis ends the token and is written in blue, a
/// blank ends the token and is written as it is, every other character goes
/// to the token. `~` ends the left-hand side.
pub open spec fn step(st: Scan, c: char) -> Scan {
    if is_operator(c) {
        Scan {
            out: flushed(st) + painted("33"@, seq![c]),
            word: Seq::empty(),
            lhs: st.lhs && c != '~',
        }
    } else if c == '(' || c == ')' {
        Scan { out: flushed(st) + painted("34"@, seq![c]), word: Seq::empty(), lhs: st.lhs }
    } else if c == ' ' {
        Scan { out: flushed(st).push(' '), word: Seq::empty(), lhs: st.lhs }
    } else {
        Scan { out: st.out, word: st.word.push(c), lhs: st.lhs }
    }
}

/// The state behind a text.
pub open spec fn scan(t: Seq<char>) -> Scan
    decreases t.len(),
{
    if t.len() == 0 {
        Scan { out: Seq::empty(), word: Seq::empty(), lhs: true }
    } else {
        step(scan(t.drop_last()), t.last())
    }
}

/// The colored form of a text, token by token.
pub open spec fn simply_colored(t: Seq<char>) -> Seq<char> {
    flushed(scan(t))
}

/// A printer that colors the parts of a formula.
#[derive(Debug, Clone, Copy)]
pub struct SimpleColoredPretty {
    enabled: bool,
}

impl SimpleColoredPretty {
    /// Whether this printer colors.
    pub closed spec fn enabled(&self) -> bool {
        self.enabled
    }

    pub fn new(enabled: bool) -> (r: Self)
        ensures
            r.enabled() == enabled,
    {
        SimpleColoredPretty { enabled }
    }

    /// Whether this printer colors.
    pub fn is_enabled(&self) -> (r: bool)
        ensures
            r == self.enabled(),
    {
        self.enabled
    }

    /// The printer that the surroundings ask for: it colors where `NO_COLOR`
    /// is not set and the output goes to a terminal.
    pub fn default(no_color_set: bool, stdout_is_terminal: bool) -> (r: Self)
        ensures
            r.enabled() == (!no_color_set && stdout_is_terminal),
    {
        SimpleColoredPretty { enabled: !no_color_set && stdout_is_terminal }
    }

    /// The printer that does not color.
    pub fn disabled() -> (r: Self)
        ensures
            !r.enabled(),
    {
        SimpleColoredPretty { enabled: false }
    }

    /// Colors a text token by token, whether this printer colors or not.
    pub fn formula_simple_parse(&self, formula: &str) -> (r: String)
        ensures
            r@ == simply_colored(formula@),
    {
        let cs = chars_of(formula);
        let mut result = String::new();
        let mut current = String::new();
        let mut in_lhs = true;
        let mut i: usize = 0;
        assert(cs@.take(0) =~= Seq::<char>::empty());
        while i < cs.len()
            invariant
                i <= cs.len(),
                scan(cs@.take(i as int)) == (Scan { out: result@, word: current@, lhs: in_lhs }),
            decreases cs.len() - i,
        {
            proof {
                assert(cs@.take(i + 1).drop_last() =~= cs@.take(i as int));
                assert(cs@.take(i + 1).last() == cs@[i as int]);
            }
            let c = cs[i];
            if c == '~' || c == '+' || c == '*' || c == ':' || c == '-' || c == '^' || c == '('
                || c == ')' || c == ' ' {
                if current.as_str().unicode_len() > 0 {
                    let token = if in_lhs {
                        red(current.as_str())
                    } else {
                        blue(current.as_str())
                    };
                    result.append(token.as_str());
                    current = String::new();
                }
                if c == ' ' {
                    result.push(' ');
                } else {
                    let mut mark = String::new();
                    mark.push(c);
                    assert(mark@ =~= seq![c]);
                    let painted = if c == '(' || c == ')' {
                        blue(mark.as_str())
                    } else {
                        yellow(mark.as_str())
                    };
                    result.append(painted.as_str());
                    if c == '~' {
                        in_lhs = false;
                    }
                }
            } else {
                current.push(c);
            }
            i += 1;
        }
        assert(cs@.take(cs.len() as int) =~= cs@);
        if current.as_str().unicode_len() > 0 {
            let token = if in_lhs {
                red(current.as_str())
            } else {
                blue(current.as_str())
            };
            result.append(token.as_str());
        }
        result
    }

    /// A response variable, in red.
    pub fn response(&self, s: &str) -> (r: String)
        ensures
            r@ == if self.enabled() {
                painted("31"@, s@)
            } else {
                s@
            },
    {
        if self.enabled {
            red(s)
        } else {
            String::from_str(s)
        }
    }

    /// A predictor variable, in blue.
    pub fn predictor(&self, s: &str) -> (r: String)
        ensures
            r@ == if self.enabled() {
                painted("34"@, s@)
            } else {
                s@
            },
    {
        if self.enabled {
            blue(s)
        } else {
            String::from_str(s)
        }
    }

    /// An operator, in yellow.
    pub fn operator(&self, s: &str) -> (r: String)
        ensures
            r@ == if self.enabled() {
                painted("33"@, s@)
            } else {
                s@
            },
    {
        if self.enabled {
            yellow(s)
        } else {
            String::from_str(s)
        }
    }

    /// A function name, colored as a predictor.
    pub fn function(&self, s: &str) -> (r: String)
        ensures
            r@ == if self.enabled() {
                painted("34"@, s@)
            } else {
                s@
            },
    {
        self.predictor(s)
    }

    /// A group expression, colored as a predictor.
    pub fn group(&self, s: &str) -> (r: String)
        ensures
            r@ == if self.enabled() {
                painted("34"@, s@)
            } else {
                s@
            },
    {
        self.predictor(s)
    }

    /// A number, colored as a predictor.
    pub fn number(&self, s: &str) -> (r: String)
        ensures
            r@ == if self.enabled() {
                painted("34"@, s@)
            } else {
                s@
            },
    {
        self.predictor(s)
    }
}

} // verus!
