//! Coloring the text of a formula with the basic terminal colors, groups in
//! parentheses in a color of their own.

use crate::color::{all_alphabetic, unicode_alphabetic, ColorConfig};
use crate::floats::{is_float, is_float_text};
use crate::paint::{blue, green, magenta, painted, red, yellow};
use crate::text::chars_of;
use vstd::prelude::*;

verus! {

/// The colored form of a token: inside a group as a group, inside a function
/// as a number, a number as a number, a word of letters as a response,
/// everything else as it is.
pub open spec fn token_text(t: Seq<char>, in_function: bool, in_group: bool) -> Seq<char> {
    if in_group {
        painted("32"@, t)
    } else if in_function {
        painted("35"@, t)
    } else if is_float_text(t) {
        painted("35"@, t)
    } else if all_alphabetic(t) && t.len() > 0 {
        painted("31"@, t)
    } else {
        t
    }
}

/// The state of coloring a formula: what is written, the token that is being
/// read, how many parentheses are open, and whether a group is open.
pub struct Scan {
    pub out: Seq<char>,
    pub word: Seq<char>,
    pub depth: int,
    pub in_group: bool,
}

/// What is written once the token that is being read is written too.
pub open spec fn flushed(st: Scan) -> Seq<char> {
    if st.word.len() == 0 {
        st.out
    } else {
        st.out + token_text(st.word, false, st.in_group)
    }
}

pub open spec fn is_operator(c: char) -> bool {
    c == '~' || c == '+' || c == '*' || c == ':' || c == '-' || c == '^'
}

/// The state behind one more character. An operator ends the token and is
/// written in yellow. A parenthesis ends the token; the one that opens the
/// outermost level opens a group and the one that closes it closes the group,
/// both written in green, every other one as it is. A blank ends the token
/// and is written as it is. Every other character goes to the token.
pub open spec fn step(st: Scan, c: char) -> Scan {
    if is_operator(c) {
        Scan {
            out: flushed(st) + painted("33"@, seq![c]),
            word: Seq::empty(),
            depth: st.depth,
            in_group: st.in_group,
        }
    } else if c == '(' {
        if st.depth + 1 == 1 {
            Scan {
                out: flushed(st) + painted("32"@, seq!['(']),
                word: Seq::empty(),
                depth: st.depth + 1,
                in_group: true,
            }
        } else {
            Scan {
                out: flushed(st).push('('),
                word: Seq::empty(),
                depth: st.depth + 1,
                in_group: st.in_group,
            }
        }
    } else if c == ')' {
        if st.depth - 1 == 0 && st.in_group {
            Scan {
                out: flushed(st) + painted("32"@, seq![')']),
                word: Seq::empty(),
                depth: st.depth - 1,
                in_group: false,
            }
        } else {
            Scan {
                out: flushed(st).push(')'),
                word: Seq::empty(),
                depth: st.depth - 1,
                in_group: st.in_group,
            }
        }
    } else if c == ' ' {
        Scan {
            out: flushed(st).push(' '),
            word: Seq::empty(),
            depth: st.depth,
            in_group: st.in_group,
        }
    } else {
        Scan { out: st.out, word: st.word.push(c), depth: st.depth, in_group: st.in_group }
    }
}

/// The state behind a text.
pub open spec fn scan(t: Seq<char>) -> Scan
    decreases t.len(),
{
    if t.len() == 0 {
        Scan { out: Seq::empty(), word: Seq::empty(), depth: 0, in_group: false }
    } else {
        step(scan(t.drop_last()), t.last())
    }
}

/// The colored form of the text of a formula.
pub open spec fn colored_formula(t: Seq<char>) -> Seq<char> {
    flushed(scan(t))
}

proof fn lemma_depth_bound(t: Seq<char>)
    ensures
        -t.len() <= scan(t).depth <= t.len(),
    decreases t.len(),
{
    if t.len() > 0 {
        lemma_depth_bound(t.drop_last());
    }
}

/// A printer that colors the parts of a formula.
#[derive(Debug, Clone, Copy)]
pub struct ColoredPretty {
    config: ColorConfig,
}

impl ColoredPretty {
    /// Whether this printer colors.
    pub closed spec fn enabled(&self) -> bool {
        self.config.enabled
    }

    pub fn new(config: ColorConfig) -> (r: Self)
        ensures
            r.enabled() == config.enabled,
    {
        ColoredPretty { config }
    }

    /// The printer that the surroundings ask for.
    pub fn default(no_color_set: bool, stdout_is_terminal: bool) -> (r: Self)
        ensures
            r.enabled() == (!no_color_set && stdout_is_terminal),
    {
        ColoredPretty { config: ColorConfig::auto(no_color_set, stdout_is_terminal) }
    }

    /// The printer that does not color.
    pub fn disabled() -> (r: Self)
        ensures
            !r.enabled(),
    {
        ColoredPretty { config: ColorConfig::disabled() }
    }

    /// A response variable, in red.
    pub fn response(&self, s: &str) -> (r: String)
        ensures
            r@ == if self.enabled() {
                painted("31"@, s@)
            } else {
                s@
            },
    {
        if self.config.enabled {
            red(s)
        } else {
            String::from_str(s)
        }
    }

    /// An operator, in yellow.
    pub fn operator(&self, s: &str) -> (r: String)
        ensures
            r@ == if self.enabled() {
                painted("33"@, s@)
            } else {
                s@
            },
    {
        if self.config.enabled {
            yellow(s)
        } else {
            String::from_str(s)
        }
    }

    /// A function name, in blue.
    pub fn function(&self, s: &str) -> (r: String)
        ensures
            r@ == if self.enabled() {
                painted("34"@, s@)
            } else {
                s@
            },
    {
        if self.config.enabled {
            blue(s)
        } else {
            String::from_str(s)
        }
    }

    /// A group expression, in green.
    pub fn group(&self, s: &str) -> (r: String)
        ensures
            r@ == if self.enabled() {
                painted("32"@, s@)
            } else {
                s@
            },
    {
        if self.config.enabled {
            green(s)
        } else {
            String::from_str(s)
        }
    }

    /// A number, in magenta.
    pub fn number(&self, s: &str) -> (r: String)
        ensures
            r@ == if self.enabled() {
                painted("35"@, s@)
            } else {
                s@
            },
    {
        if self.config.enabled {
            magenta(s)
        } else {
            String::from_str(s)
        }
    }

    /// A token of a formula.
    pub fn color_token(&self, token: &str, in_function: bool, in_group: bool) -> (r: String)
        ensures
            self.enabled() ==> r@ == token_text(token@, in_function, in_group),
            !self.enabled() ==> r@ == token@,
    {
        if in_group {
            return self.group(token);
        }
        if in_function {
            return self.number(token);
        }
        let cs = chars_of(token);
        if is_float(&cs) {
            return self.number(token);
        }
        if cs.len() > 0 {
            let mut letters = true;
            let mut i: usize = 0;
            while i < cs.len() && letters
                invariant
                    i <= cs.len(),
                    letters ==> forall|j: int| 0 <= j < i ==> unicode_alphabetic(#[trigger] cs@[j]),
                    !letters ==> !all_alphabetic(cs@),
                decreases cs.len() - i,
            {
                if !cs[i].is_alphabetic() {
                    letters = false;
                }
                i += 1;
            }
            if letters {
                return self.response(token);
            }
        }
        String::from_str(token)
    }

    /// The text of a formula with its parts colored.
    pub fn formula(&self, formula: &str) -> (r: String)
        ensures
            r@ == if self.enabled() {
                colored_formula(formula@)
            } else {
                formula@
            },
    {
        if !self.config.enabled {
            return String::from_str(formula);
        }
        let cs = chars_of(formula);
        let mut result = String::new();
        let mut current = String::new();
        let mut depth: i128 = 0;
        let mut in_group = false;
        let mut i: usize = 0;
        assert(cs@.take(0) =~= Seq::<char>::empty());
        while i < cs.len()
            invariant
                i <= cs.len(),
                self.enabled(),
                scan(cs@.take(i as int)) == (Scan {
                    out: result@,
                    word: current@,
                    depth: depth as int,
                    in_group,
                }),
            decreases cs.len() - i,
        {
            proof {
                assert(cs@.take(i + 1).drop_last() =~= cs@.take(i as int));
                assert(cs@.take(i + 1).last() == cs@[i as int]);
                lemma_depth_bound(cs@.take(i as int));
            }
            let c = cs[i];
            if c == '~' || c == '+' || c == '*' || c == ':' || c == '-' || c == '^' || c == '('
                || c == ')' || c == ' ' {
                if current.as_str().unicode_len() > 0 {
                    let token = self.color_token(current.as_str(), false, in_group);
                    result.append(token.as_str());
                    current = String::new();
                }
                if c == '(' {
                    depth = depth + 1;
                    if depth == 1 {
                        in_group = true;
                        let mark = self.group("(");
                        result.append(mark.as_str());
                        proof {
                            reveal_strlit("(");
                            assert("("@ =~= seq!['(']);
                        }
                    } else {
                        result.push('(');
                    }
                } else if c == ')' {
                    depth = depth - 1;
                    if depth == 0 && in_group {
                        in_group = false;
                        let mark = self.group(")");
                        result.append(mark.as_str());
                        proof {
                            reveal_strlit(")");
                            assert(")"@ =~= seq![')']);
                        }
                    } else {
                        result.push(')');
                    }
                } else if c == ' ' {
                    result.push(' ');
                } else {
                    let mut mark = String::new();
                    mark.push(c);
                    assert(mark@ =~= seq![c]);
                    let painted = self.operator(mark.as_str());
                    result.append(painted.as_str());
                }
            } else {
                current.push(c);
            }
            i += 1;
        }
        assert(cs@.take(cs.len() as int) =~= cs@);
        if current.as_str().unicode_len() > 0 {
            let token = self.color_token(current.as_str(), false, in_group);
            result.append(token.as_str());
        }
        result
    }
}

} // verus!
