//! The grammar of expressions.
//!
//! From the loosest binding to the tightest: a sum of products joined by `+`
//! and `-`; a product of nestings joined by `*`; a nesting of interactions
//! joined by `/` and `%in%`; an interaction of powers joined by `:`; a power
//! of an atom. Blanks may stand between the parts, but not within a name or a
//! number and not between the name of a call and its parenthesis. The
//! alternatives of a rule are tried in the order in which they are written,
//! and the first that matches stands.

use crate::ast::{
    AutocorView, ExprView, GroupKind, GroupOp, GroupSpecView, NestKind, SmoothKind, Text,
};
use crate::lex::{
    boolean_at, dotted_at, eats, has, ident_at, number_at, skip_space, string_at, within,
};
use crate::pretty::smooth_kind_text;
use vstd::prelude::*;

verus! {

// ---------------------------------------------------------------------------
// What the grammar says
// ---------------------------------------------------------------------------

/// The first of two results that is there.
pub open spec fn first_of<T>(a: Option<T>, b: Option<T>) -> Option<T> {
    match a {
        Some(_) => a,
        None => b,
    }
}

/// The index of the first argument named `key` at or behind `from`, or -1.
pub open spec fn key_index(args: Seq<(Text, ExprView)>, key: Text, from: int) -> int
    decreases args.len() - from,
{
    if from < 0 || from >= args.len() {
        -1
    } else if args[from].0 == key {
        from
    } else {
        key_index(args, key, from + 1)
    }
}

/// The arguments with `key` set to `value`: in place where the name is there
/// already, else at the end.
pub open spec fn named_put(args: Seq<(Text, ExprView)>, key: Text, value: ExprView) -> Seq<
    (Text, ExprView),
> {
    let i = key_index(args, key, 0);
    if 0 <= i < args.len() {
        args.update(i, (key, value))
    } else {
        args.push((key, value))
    }
}

/// The term `-t` of a sum.
pub open spec fn negated(t: ExprView) -> ExprView {
    ExprView::Func { name: "NEG"@, args: seq![t] }
}

/// What a number literal stands for: the intercept for `1`, no intercept for
/// `0`, else the number.
pub open spec fn literal(n: Text) -> ExprView {
    if n == seq!['1'] {
        ExprView::Intercept(true)
    } else if n == seq!['0'] {
        ExprView::Intercept(false)
    } else {
        ExprView::Num(n)
    }
}

/// One term for one, else the list under the given head.
pub open spec fn one_or_sum(ts: Seq<ExprView>) -> ExprView {
    if ts.len() == 1 {
        ts[0]
    } else {
        ExprView::Sum(ts)
    }
}

pub open spec fn one_or_prod(ts: Seq<ExprView>) -> ExprView {
    if ts.len() == 1 {
        ts[0]
    } else {
        ExprView::Prod(ts)
    }
}

pub open spec fn one_or_interaction(ts: Seq<ExprView>) -> ExprView {
    if ts.len() == 1 {
        ts[0]
    } else {
        ExprView::Interaction(ts)
    }
}

/// The position behind the character `c` and the blanks round it.
pub open spec fn padded_char_at(s: Seq<char>, pos: int, c: char) -> Option<int> {
    let q = skip_space(s, pos);
    if has(s, q, c) {
        Some(skip_space(s, q + 1))
    } else {
        None
    }
}

/// An expression: a sum, with blanks before and behind.
pub open spec fn expr_at(s: Seq<char>, pos: int) -> Option<(ExprView, int)>
    decreases s.len() - pos, 20nat,
{
    let p = skip_space(s, pos);
    if within(s, pos, p) {
        match sum_at(s, p) {
            Some((e, q)) => Some((e, skip_space(s, q))),
            None => None,
        }
    } else {
        None
    }
}

/// A sum: a product, then products behind `+` or `-`.
pub open spec fn sum_at(s: Seq<char>, pos: int) -> Option<(ExprView, int)>
    decreases s.len() - pos, 19nat,
{
    match prod_at(s, pos) {
        Some((head, p)) => if within(s, pos, p) {
            let r = sum_rest(s, p, seq![head]);
            Some((one_or_sum(r.0), r.1))
        } else {
            None
        },
        None => None,
    }
}

/// The further terms of a sum. The sum ends before a `+` behind which the
/// formula of a distributional parameter or an autocorrelation term with
/// named arguments starts.
pub open spec fn sum_rest(s: Seq<char>, pos: int, acc: Seq<ExprView>) -> (Seq<ExprView>, int)
    decreases s.len() - pos, 18nat,
{
    let q0 = skip_space(s, pos);
    if within(s, pos, q0) && (has(s, q0, '+') || has(s, q0, '-')) {
        let q1 = skip_space(s, q0 + 1);
        if within(s, q0 + 1, q1) {
            if s[q0] == '+' && tail_starts(s, q1) {
                (acc, pos)
            } else {
                match prod_at(s, q1) {
                    Some((t, q2)) => if within(s, q1, q2) {
                        sum_rest(s, q2, acc.push(if s[q0] == '-' {
                            negated(t)
                        } else {
                            t
                        }))
                    } else {
                        (acc, pos)
                    },
                    None => (acc, pos),
                }
            }
        } else {
            (acc, pos)
        }
    } else {
        (acc, pos)
    }
}

/// A product: nestings with `*` between them.
pub open spec fn prod_at(s: Seq<char>, pos: int) -> Option<(ExprView, int)>
    decreases s.len() - pos, 17nat,
{
    match nest_at(s, pos) {
        Some((head, p)) => if within(s, pos, p) {
            let r = prod_rest(s, p, seq![head]);
            Some((one_or_prod(r.0), r.1))
        } else {
            None
        },
        None => None,
    }
}

pub open spec fn prod_rest(s: Seq<char>, pos: int, acc: Seq<ExprView>) -> (Seq<ExprView>, int)
    decreases s.len() - pos, 16nat,
{
    if has(s, pos, '*') {
        match nest_at(s, pos + 1) {
            Some((t, q)) => if within(s, pos + 1, q) {
                prod_rest(s, q, acc.push(t))
            } else {
                (acc, pos)
            },
            None => (acc, pos),
        }
    } else {
        (acc, pos)
    }
}

/// A nesting: interactions with `/` or `%in%` between them, read from the
/// left.
pub open spec fn nest_at(s: Seq<char>, pos: int) -> Option<(ExprView, int)>
    decreases s.len() - pos, 15nat,
{
    match inter_at(s, pos) {
        Some((head, p)) => if within(s, pos, p) {
            Some(nest_rest(s, p, head))
        } else {
            None
        },
        None => None,
    }
}

/// The nesting operator at `pos` and the position behind it.
pub open spec fn nest_op_at(s: Seq<char>, pos: int) -> Option<(NestKind, int)> {
    if has(s, pos, '/') {
        Some((NestKind::Slash, pos + 1))
    } else if eats(s, pos, "%in%"@) {
        Some((NestKind::In, pos + "%in%"@.len()))
    } else {
        None
    }
}

pub open spec fn nest_rest(s: Seq<char>, pos: int, acc: ExprView) -> (ExprView, int)
    decreases s.len() - pos, 14nat,
{
    match nest_op_at(s, pos) {
        Some((kind, q)) => if pos < q <= s.len() {
            match inter_at(s, q) {
                Some((t, q2)) => if within(s, q, q2) {
                    nest_rest(
                        s,
                        q2,
                        ExprView::Nest { outer: Box::new(acc), inner: Box::new(t), kind },
                    )
                } else {
                    (acc, pos)
                },
                None => (acc, pos),
            }
        } else {
            (acc, pos)
        },
        None => (acc, pos),
    }
}

/// An interaction: powers with `:` between them.
pub open spec fn inter_at(s: Seq<char>, pos: int) -> Option<(ExprView, int)>
    decreases s.len() - pos, 13nat,
{
    match pow_at(s, pos) {
        Some((head, p)) => if within(s, pos, p) {
            let r = inter_rest(s, p, seq![head]);
            Some((one_or_interaction(r.0), r.1))
        } else {
            None
        },
        None => None,
    }
}

pub open spec fn inter_rest(s: Seq<char>, pos: int, acc: Seq<ExprView>) -> (Seq<ExprView>, int)
    decreases s.len() - pos, 12nat,
{
    if has(s, pos, ':') {
        match pow_at(s, pos + 1) {
            Some((t, q)) => if within(s, pos + 1, q) {
                inter_rest(s, q, acc.push(t))
            } else {
                (acc, pos)
            },
            None => (acc, pos),
        }
    } else {
        (acc, pos)
    }
}

/// A power: an atom, then `^` and a number or an expression in parentheses,
/// or nothing.
pub open spec fn pow_at(s: Seq<char>, pos: int) -> Option<(ExprView, int)>
    decreases s.len() - pos, 11nat,
{
    match atom_at(s, pos) {
        Some((base, p)) => if within(s, pos, p) && has(s, p, '^') {
            match exponent_at(s, p + 1) {
                Some((e, q)) => Some(
                    (ExprView::Pow { base: Box::new(base), exp: Box::new(e) }, q),
                ),
                None => Some((base, p)),
            }
        } else {
            Some((base, p))
        },
        None => None,
    }
}

/// An exponent: a number or an expression in parentheses, with blanks before
/// and behind.
pub open spec fn exponent_at(s: Seq<char>, pos: int) -> Option<(ExprView, int)>
    decreases s.len() - pos, 7nat,
{
    let p = skip_space(s, pos);
    if within(s, pos, p) {
        match first_of(num_atom(number_at(s, p)), paren_at(s, p)) {
            Some((e, q)) => Some((e, skip_space(s, q))),
            None => None,
        }
    } else {
        None
    }
}

/// An atom, with blanks before and behind: a number, a boolean, a string, a
/// smooth, a group term, a function call, a variable, an expression in
/// parentheses, `.` or `I(..)`.
pub open spec fn atom_at(s: Seq<char>, pos: int) -> Option<(ExprView, int)>
    decreases s.len() - pos, 10nat,
{
    let p = skip_space(s, pos);
    if within(s, pos, p) {
        match bare_atom_at(s, p) {
            Some((e, q)) => Some((e, skip_space(s, q))),
            None => None,
        }
    } else {
        None
    }
}

pub open spec fn num_atom(r: Option<(Text, int)>) -> Option<(ExprView, int)> {
    match r {
        Some((n, q)) => Some((literal(n), q)),
        None => None,
    }
}

pub open spec fn bool_atom(r: Option<(bool, int)>) -> Option<(ExprView, int)> {
    match r {
        Some((b, q)) => Some((ExprView::Bool(b), q)),
        None => None,
    }
}

pub open spec fn str_atom(r: Option<(Text, int)>) -> Option<(ExprView, int)> {
    match r {
        Some((t, q)) => Some((ExprView::Str(t), q)),
        None => None,
    }
}

pub open spec fn var_atom(r: Option<(Text, int)>) -> Option<(ExprView, int)> {
    match r {
        Some((v, q)) => Some((ExprView::Var(v), q)),
        None => None,
    }
}

pub open spec fn func_atom(r: Option<((Text, Seq<ExprView>), int)>) -> Option<(ExprView, int)> {
    match r {
        Some(((name, args), q)) => Some((ExprView::Func { name, args }, q)),
        None => None,
    }
}

/// The atom `.`.
pub open spec fn dot_at(s: Seq<char>, pos: int) -> Option<(ExprView, int)> {
    if has(s, pos, '.') {
        Some((ExprView::Dot, pos + 1))
    } else {
        None
    }
}

pub open spec fn bare_atom_at(s: Seq<char>, pos: int) -> Option<(ExprView, int)>
    decreases s.len() - pos, 9nat,
{
    first_of(
        num_atom(number_at(s, pos)),
        first_of(
            bool_atom(boolean_at(s, pos)),
            first_of(
                str_atom(string_at(s, pos)),
                first_of(
                    smooth_at(s, pos),
                    first_of(
                        group_term_at(s, pos),
                        first_of(
                            func_atom(call_at(s, pos)),
                            first_of(
                                var_atom(ident_at(s, pos)),
                                first_of(
                                    paren_at(s, pos),
                                    first_of(dot_at(s, pos), identity_at(s, pos)),
                                ),
                            ),
                        ),
                    ),
                ),
            ),
        ),
    )
}

/// An expression in parentheses.
pub open spec fn paren_at(s: Seq<char>, pos: int) -> Option<(ExprView, int)>
    decreases s.len() - pos, 5nat,
{
    if has(s, pos, '(') {
        match expr_at(s, pos + 1) {
            Some((e, q)) => if has(s, q, ')') {
                Some((e, q + 1))
            } else {
                None
            },
            None => None,
        }
    } else {
        None
    }
}

/// `I(..)`.
pub open spec fn identity_at(s: Seq<char>, pos: int) -> Option<(ExprView, int)>
    decreases s.len() - pos, 6nat,
{
    if has(s, pos, 'I') {
        match paren_at(s, pos + 1) {
            Some((e, q)) => Some((ExprView::Identity(Box::new(e)), q)),
            None => None,
        }
    } else {
        None
    }
}

/// A call: a dotted name and, right behind it, arguments in parentheses.
pub open spec fn call_at(s: Seq<char>, pos: int) -> Option<((Text, Seq<ExprView>), int)>
    decreases s.len() - pos, 6nat,
{
    match dotted_at(s, pos) {
        Some((name, p)) => if pos < p && has(s, p, '(') {
            let r = args_at(s, p + 1);
            let close = skip_space(s, r.1);
            if has(s, close, ')') {
                Some(((name, r.0), close + 1))
            } else {
                None
            }
        } else {
            None
        },
        None => None,
    }
}

/// Arguments: expressions with `,` between them, or none at all.
pub open spec fn args_at(s: Seq<char>, pos: int) -> (Seq<ExprView>, int)
    decreases s.len() - pos, 22nat,
{
    match expr_at(s, pos) {
        Some((e, p)) => if within(s, pos, p) {
            args_rest(s, p, seq![e])
        } else {
            (Seq::empty(), pos)
        },
        None => (Seq::empty(), pos),
    }
}

pub open spec fn args_rest(s: Seq<char>, pos: int, acc: Seq<ExprView>) -> (Seq<ExprView>, int)
    decreases s.len() - pos, 21nat,
{
    if has(s, pos, ',') {
        match expr_at(s, pos + 1) {
            Some((e, q)) => if within(s, pos + 1, q) {
                args_rest(s, q, acc.push(e))
            } else {
                (acc, pos)
            },
            None => (acc, pos),
        }
    } else {
        (acc, pos)
    }
}

/// A named argument: `name = value`, with blanks before the name.
pub open spec fn named_arg_at(s: Seq<char>, pos: int) -> Option<((Text, ExprView), int)>
    decreases s.len() - pos, 23nat,
{
    let start = skip_space(s, pos);
    match ident_at(s, start) {
        Some((key, p)) => if within(s, pos, start) && start < p <= s.len() {
            match padded_char_at(s, p, '=') {
                Some(q) => if within(s, p, q) {
                    match expr_at(s, q) {
                        Some((value, q2)) => Some(((key, value), q2)),
                        None => None,
                    }
                } else {
                    None
                },
                None => None,
            }
        } else {
            None
        },
        None => None,
    }
}

pub open spec fn named_args_rest(s: Seq<char>, pos: int, acc: Seq<(Text, ExprView)>) -> (
    Seq<(Text, ExprView)>,
    int,
)
    decreases s.len() - pos, 24nat,
{
    if has(s, pos, ',') {
        match named_arg_at(s, pos + 1) {
            Some(((key, value), q)) => if within(s, pos + 1, q) {
                named_args_rest(s, q, named_put(acc, key, value))
            } else {
                (acc, pos)
            },
            None => (acc, pos),
        }
    } else {
        (acc, pos)
    }
}

/// Named arguments with `,` between them, or none at all. Of two with one
/// name the later value stands.
pub open spec fn named_args_at(s: Seq<char>, pos: int) -> (Seq<(Text, ExprView)>, int)
    decreases s.len() - pos, 25nat,
{
    match named_arg_at(s, pos) {
        Some(((key, value), p)) => if within(s, pos, p) {
            named_args_rest(s, p, named_put(Seq::empty(), key, value))
        } else {
            (Seq::empty(), pos)
        },
        None => (Seq::empty(), pos),
    }
}

/// A name in a list of names: an identifier with blanks before and behind,
/// and no `=` behind it.
pub open spec fn name_item_at(s: Seq<char>, pos: int) -> Option<(Text, int)> {
    match ident_at(s, skip_space(s, pos)) {
        Some((name, e)) => {
            let q = skip_space(s, e);
            if has(s, q, '=') {
                None
            } else {
                Some((name, q))
            }
        },
        None => None,
    }
}

pub open spec fn names_rest(s: Seq<char>, pos: int, acc: Seq<Text>) -> (Seq<Text>, int)
    decreases s.len() - pos,
{
    if has(s, pos, ',') {
        match name_item_at(s, pos + 1) {
            Some((name, p)) => if within(s, pos + 1, p) {
                names_rest(s, p, acc.push(name))
            } else {
                (acc, pos)
            },
            None => (acc, pos),
        }
    } else {
        (acc, pos)
    }
}

/// One or more names with `,` between them.
pub open spec fn names_at(s: Seq<char>, pos: int) -> Option<(Seq<Text>, int)> {
    match name_item_at(s, pos) {
        Some((name, p)) => Some(names_rest(s, p, seq![name])),
        None => None,
    }
}

/// A smooth of one kind: the kind's word, `(`, one variable or more, then
/// named arguments or none, `)`, all with `,` between them.
pub open spec fn smooth_form(s: Seq<char>, pos: int, kind: SmoothKind) -> Option<(ExprView, int)>
    decreases s.len() - pos, 7nat,
{
    let word = smooth_kind_text(kind);
    if eats(s, pos, word) && has(s, pos + word.len(), '(') {
        match names_at(s, pos + word.len() + 1) {
            Some((vars, p)) => if pos < p <= s.len() {
                if has(s, p, ',') {
                    let r = named_args_at(s, p + 1);
                    if r.0.len() > 0 && has(s, r.1, ')') {
                        Some((ExprView::Smooth { kind, vars, args: r.0 }, r.1 + 1))
                    } else {
                        None
                    }
                } else if has(s, p, ')') {
                    Some((ExprView::Smooth { kind, vars, args: Seq::empty() }, p + 1))
                } else {
                    None
                }
            } else {
                None
            },
            None => None,
        }
    } else {
        None
    }
}

/// A smooth: `s(..)`, `t2(..)`, `te(..)` or `ti(..)`.
pub open spec fn smooth_at(s: Seq<char>, pos: int) -> Option<(ExprView, int)>
    decreases s.len() - pos, 8nat,
{
    first_of(
        smooth_form(s, pos, SmoothKind::S),
        first_of(
            smooth_form(s, pos, SmoothKind::T2),
            first_of(smooth_form(s, pos, SmoothKind::TE), smooth_form(s, pos, SmoothKind::TI)),
        ),
    )
}

/// The operator between two grouping variables.
pub open spec fn group_op_at(s: Seq<char>, pos: int) -> Option<GroupOp> {
    if has(s, pos, ':') {
        Some(GroupOp::Cross)
    } else if has(s, pos, '/') {
        Some(GroupOp::Nest)
    } else if has(s, pos, '+') {
        Some(GroupOp::Split)
    } else {
        None
    }
}

pub open spec fn chain_rest(s: Seq<char>, pos: int, acc: Seq<(Text, Option<GroupOp>)>) -> (
    Seq<(Text, Option<GroupOp>)>,
    int,
)
    decreases s.len() - pos,
{
    match group_op_at(s, pos) {
        Some(op) => match ident_at(s, pos + 1) {
            Some((name, p)) => if within(s, pos + 1, p) {
                chain_rest(s, p, acc.push((name, Some(op))))
            } else {
                (acc, pos)
            },
            None => (acc, pos),
        },
        None => (acc, pos),
    }
}

/// A chain of grouping variables: identifiers with `:`, `/` or `+` between
/// them, without blanks.
pub open spec fn chain_at(s: Seq<char>, pos: int) -> Option<(Seq<(Text, Option<GroupOp>)>, int)> {
    match ident_at(s, pos) {
        Some((name, p)) => Some(chain_rest(s, p, seq![(name, None)])),
        None => None,
    }
}

/// A grouping: a call, else a chain of variables; blanks may follow.
pub open spec fn group_spec_at(s: Seq<char>, pos: int) -> Option<(GroupSpecView, int)>
    decreases s.len() - pos, 23nat,
{
    match call_at(s, pos) {
        Some(((name, args), p)) => Some((GroupSpecView::Func { name, args }, skip_space(s, p))),
        None => match chain_at(s, pos) {
            Some((chain, p)) => Some((GroupSpecView::Expr(chain), skip_space(s, p))),
            None => None,
        },
    }
}

/// The name that a grouping is where it is a single variable.
pub open spec fn bare_name(g: GroupSpecView) -> Option<Text> {
    match g {
        GroupSpecView::Expr(chain) => if chain.len() == 1 {
            Some(chain[0].0)
        } else {
            None
        },
        _ => None,
    }
}

/// The group term of the given parts where the parenthesis closes behind the
/// grouping.
pub open spec fn closed_group(
    s: Seq<char>,
    r: Option<(GroupSpecView, int)>,
    inner: ExprView,
    kind: GroupKind,
    id: Option<Text>,
) -> Option<(ExprView, int)> {
    match r {
        Some((spec, p)) => if has(s, p, ')') {
            Some((ExprView::Group { inner: Box::new(inner), spec, kind, id }, p + 1))
        } else {
            None
        },
        None => None,
    }
}

/// What follows the inner expression and the first `|` of a group term: a
/// second `|` and the grouping of uncorrelated effects; or a name, a `|` and
/// the grouping of correlated effects under that name; or the grouping of
/// correlated effects. `pos` stands behind the first `|` and the blanks that
/// follow it.
pub open spec fn group_tail_at(s: Seq<char>, pos: int, inner: ExprView) -> Option<(ExprView, int)>
    decreases s.len() - pos, 24nat,
{
    if has(s, pos, '|') {
        let q = skip_space(s, pos + 1);
        if within(s, pos + 1, q) {
            closed_group(s, group_spec_at(s, q), inner, GroupKind::Uncorrelated, None)
        } else {
            None
        }
    } else {
        match group_spec_at(s, pos) {
            Some((first, p)) => if within(s, pos, p) && has(s, p, '|') && bare_name(first) is Some {
                let q = skip_space(s, p + 1);
                if within(s, p + 1, q) {
                    closed_group(
                        s,
                        group_spec_at(s, q),
                        inner,
                        GroupKind::Correlated,
                        bare_name(first),
                    )
                } else {
                    None
                }
            } else {
                closed_group(s, Some((first, p)), inner, GroupKind::Correlated, None)
            },
            None => None,
        }
    }
}

/// A group term: `(inner|group)`, `(inner||group)` or `(inner|name|group)`.
pub open spec fn group_term_at(s: Seq<char>, pos: int) -> Option<(ExprView, int)>
    decreases s.len() - pos, 8nat,
{
    if has(s, pos, '(') {
        match expr_at(s, pos + 1) {
            Some((inner, p)) => if within(s, pos + 1, p) && has(s, p, '|') {
                let q = skip_space(s, p + 1);
                if within(s, p + 1, q) {
                    group_tail_at(s, q, inner)
                } else {
                    None
                }
            } else {
                None
            },
            None => None,
        }
    } else {
        None
    }
}

// ---------------------------------------------------------------------------
// What ends a sum
// ---------------------------------------------------------------------------

/// The autocorrelation term of the given name: the name, `(`, named arguments
/// or none, `)`.
pub open spec fn autocor_with(s: Seq<char>, pos: int, name: Text) -> Option<(AutocorView, int)>
    decreases s.len() - pos, 26nat,
{
    if eats(s, pos, name) && has(s, pos + name.len(), '(') {
        let r = named_args_at(s, pos + name.len() + 1);
        let close = skip_space(s, r.1);
        if has(s, close, ')') {
            Some((AutocorView { name, args: r.0 }, close + 1))
        } else {
            None
        }
    } else {
        None
    }
}

/// An autocorrelation term: `ar`, `ma`, `arma`, `cosy`, `unstr`, `sar`, `car`
/// or `fcor` with named arguments.
pub open spec fn autocor_at(s: Seq<char>, pos: int) -> Option<(AutocorView, int)>
    decreases s.len() - pos, 27nat,
{
    first_of(
        autocor_with(s, pos, "ar"@),
        first_of(
            autocor_with(s, pos, "ma"@),
            first_of(
                autocor_with(s, pos, "arma"@),
                first_of(
                    autocor_with(s, pos, "cosy"@),
                    first_of(
                        autocor_with(s, pos, "unstr"@),
                        first_of(
                            autocor_with(s, pos, "sar"@),
                            first_of(
                                autocor_with(s, pos, "car"@),
                                autocor_with(s, pos, "fcor"@),
                            ),
                        ),
                    ),
                ),
            ),
        ),
    )
}

/// The start of the formula of the distributional parameter of the given
/// name: the name and `~`; the position behind them.
pub open spec fn dpar_head(s: Seq<char>, pos: int, name: Text) -> Option<(Text, int)> {
    if eats(s, pos, name) {
        match padded_char_at(s, pos + name.len(), '~') {
            Some(q) => Some((name, q)),
            None => None,
        }
    } else {
        None
    }
}

/// The start of the formula of a distributional parameter: `sigma`, `nu`,
/// `phi`, `zi`, `hu`, `zoi`, `coi`, `kappa`, `beta`, `disc`, `bs`, `ndt` or
/// `bias`, and `~`.
pub open spec fn dpar_head_at(s: Seq<char>, pos: int) -> Option<(Text, int)> {
    first_of(
        dpar_head(s, pos, "sigma"@),
        first_of(
            dpar_head(s, pos, "nu"@),
            first_of(
                dpar_head(s, pos, "phi"@),
                first_of(
                    dpar_head(s, pos, "zi"@),
                    first_of(
                        dpar_head(s, pos, "hu"@),
                        first_of(
                            dpar_head(s, pos, "zoi"@),
                            first_of(
                                dpar_head(s, pos, "coi"@),
                                first_of(
                                    dpar_head(s, pos, "kappa"@),
                                    first_of(
                                        dpar_head(s, pos, "beta"@),
                                        first_of(
                                            dpar_head(s, pos, "disc"@),
                                            first_of(
                                                dpar_head(s, pos, "bs"@),
                                                first_of(
                                                    dpar_head(s, pos, "ndt"@),
                                                    dpar_head(s, pos, "bias"@),
                                                ),
                                            ),
                                        ),
                                    ),
                                ),
                            ),
                        ),
                    ),
                ),
            ),
        ),
    )
}

/// Whether the formula of a distributional parameter or an autocorrelation
/// term with named arguments starts at `pos`: what is no term of a sum. An
/// autocorrelation call without arguments is a term like every other call.
pub open spec fn tail_starts(s: Seq<char>, pos: int) -> bool
    decreases s.len() - pos, 28nat,
{
    dpar_head_at(s, pos) is Some || (autocor_at(s, pos) matches Some(r) && r.0.args.len() > 0)
}

} // verus!
