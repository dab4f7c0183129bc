//! Reading expressions: the functions that follow the grammar of
//! expressions over the characters of a formula.

use crate::ast::{
    chain_view, exprs_view, is_text, named_view, push_expr, push_named, push_text, texts_view,
    Autocor, Expr, ExprView, GroupExpr, GroupKind, GroupOp, GroupSpec, NestKind, SmoothKind, Text,
};
use crate::grammar::{
    args_at, args_rest, atom_at, autocor_at, autocor_with, bare_atom_at, bare_name, call_at,
    chain_at, chain_rest, closed_group, dpar_head, dpar_head_at, exponent_at, expr_at, first_of,
    group_op_at, group_spec_at, group_tail_at, group_term_at, identity_at, inter_at, inter_rest,
    key_index, literal, name_item_at, named_arg_at, named_args_at, named_args_rest, named_put,
    names_at, names_rest, nest_at, nest_op_at, nest_rest, padded_char_at, paren_at, pow_at,
    prod_at, prod_rest, smooth_at, smooth_form, sum_at, sum_rest, tail_starts,
};
use crate::lex::{
    eat, eat_char, parse_boolean, parse_dotted, parse_ident, parse_number, parse_string,
    skip_whitespace, text_agrees,
};
use vstd::prelude::*;

verus! {

/// Whether a read expression agrees with what the grammar says stands there.
pub open spec fn agrees(r: Option<(Expr, usize)>, m: Option<(ExprView, int)>) -> bool {
    match r {
        Some((e, p)) => m == Some((e@, p as int)),
        None => m is None,
    }
}

/// Whether a read list of expressions agrees with the grammar.
pub open spec fn list_agrees(r: (Vec<Expr>, usize), m: (Seq<ExprView>, int)) -> bool {
    exprs_view(r.0@) == m.0 && r.1 as int == m.1
}

fn single(e: Expr) -> (r: Vec<Expr>)
    ensures
        r@.len() == 1,
        exprs_view(r@) == seq![e@],
{
    let mut v: Vec<Expr> = Vec::new();
    push_expr(&mut v, e);
    assert(exprs_view(v@) =~= seq![e@]);
    v
}

fn only(terms: Vec<Expr>) -> (r: Expr)
    requires
        terms@.len() == 1,
    ensures
        r@ == exprs_view(terms@)[0],
{
    let mut terms = terms;
    match terms.pop() {
        Some(t) => t,
        None => Expr::Dot,
    }
}

/// What a number literal stands for.
pub fn number_expr(n: String) -> (r: Expr)
    ensures
        r@ == literal(n@),
{
    proof {
        reveal_strlit("1");
        reveal_strlit("0");
        assert("1"@ =~= seq!['1']);
        assert("0"@ =~= seq!['0']);
    }
    if is_text(&n, "1") {
        Expr::Intercept(true)
    } else if is_text(&n, "0") {
        Expr::Intercept(false)
    } else {
        Expr::Num(n)
    }
}

pub fn parse_expr(s: &Vec<char>, pos: usize) -> (r: Option<(Expr, usize)>)
    requires
        pos <= s.len(),
    ensures
        agrees(r, expr_at(s@, pos as int)),
        r matches Some((_, p)) ==> pos <= p <= s.len(),
    decreases s.len() - pos, 20nat,
{
    let p = skip_whitespace(s, pos);
    match parse_sum(s, p) {
        Some((e, q)) => Some((e, skip_whitespace(s, q))),
        None => None,
    }
}

fn parse_sum(s: &Vec<char>, pos: usize) -> (r: Option<(Expr, usize)>)
    requires
        pos <= s.len(),
    ensures
        agrees(r, sum_at(s@, pos as int)),
        r matches Some((_, p)) ==> pos <= p <= s.len(),
    decreases s.len() - pos, 19nat,
{
    match parse_prod(s, pos) {
        None => None,
        Some((head, start)) => {
            let ghost first = head@;
            let mut terms = single(head);
            let mut p = start;
            let mut done = false;
            while !done
                invariant
                    pos <= start <= p <= s.len(),
                    terms@.len() >= 1,
                    sum_rest(s@, p as int, exprs_view(terms@)) == sum_rest(
                        s@,
                        start as int,
                        seq![first],
                    ),
                    done ==> sum_rest(s@, p as int, exprs_view(terms@)) == (
                        exprs_view(terms@),
                        p as int,
                    ),
                decreases
                        s.len() - p,
                        if done {
                            0nat
                        } else {
                            1nat
                        },
            {
                let q0 = skip_whitespace(s, p);
                if q0 < s.len() && (s[q0] == '+' || s[q0] == '-') {
                    let minus = s[q0] == '-';
                    let q1 = skip_whitespace(s, q0 + 1);
                    if !minus && starts_tail(s, q1) {
                        done = true;
                    } else {
                        match parse_prod(s, q1) {
                            None => {
                                done = true;
                            },
                            Some((t, q2)) => {
                                let term = if minus {
                                    Expr::Func { name: String::from_str("NEG"), args: single(t) }
                                } else {
                                    t
                                };
                                push_expr(&mut terms, term);
                                p = q2;
                            },
                        }
                    }
                } else {
                    done = true;
                }
            }
            let e = if terms.len() == 1 {
                only(terms)
            } else {
                Expr::Sum(terms)
            };
            Some((e, p))
        },
    }
}

fn parse_prod(s: &Vec<char>, pos: usize) -> (r: Option<(Expr, usize)>)
    requires
        pos <= s.len(),
    ensures
        agrees(r, prod_at(s@, pos as int)),
        r matches Some((_, p)) ==> pos <= p <= s.len(),
    decreases s.len() - pos, 17nat,
{
    match parse_nest(s, pos) {
        None => None,
        Some((head, start)) => {
            let ghost first = head@;
            let mut terms = single(head);
            let mut p = start;
            let mut done = false;
            while !done
                invariant
                    pos <= start <= p <= s.len(),
                    terms@.len() >= 1,
                    prod_rest(s@, p as int, exprs_view(terms@)) == prod_rest(
                        s@,
                        start as int,
                        seq![first],
                    ),
                    done ==> prod_rest(s@, p as int, exprs_view(terms@)) == (
                        exprs_view(terms@),
                        p as int,
                    ),
                decreases
                        s.len() - p,
                        if done {
                            0nat
                        } else {
                            1nat
                        },
            {
                if eat_char(s, p, '*') {
                    match parse_nest(s, p + 1) {
                        None => {
                            done = true;
                        },
                        Some((t, q)) => {
                            push_expr(&mut terms, t);
                            p = q;
                        },
                    }
                } else {
                    done = true;
                }
            }
            let e = if terms.len() == 1 {
                only(terms)
            } else {
                Expr::Prod(terms)
            };
            Some((e, p))
        },
    }
}

fn parse_nest_op(s: &Vec<char>, pos: usize) -> (r: Option<(NestKind, usize)>)
    requires
        pos <= s.len(),
    ensures
        match r {
            Some((kind, p)) => nest_op_at(s@, pos as int) == Some((kind, p as int)),
            None => nest_op_at(s@, pos as int) is None,
        },
        r matches Some((_, p)) ==> pos < p <= s.len(),
{
    if eat_char(s, pos, '/') {
        Some((NestKind::Slash, pos + 1))
    } else {
        match eat(s, pos, "%in%") {
            Some(p) => {
                proof {
                    reveal_strlit("%in%");
                }
                Some((NestKind::In, p))
            },
            None => None,
        }
    }
}

fn parse_nest(s: &Vec<char>, pos: usize) -> (r: Option<(Expr, usize)>)
    requires
        pos <= s.len(),
    ensures
        agrees(r, nest_at(s@, pos as int)),
        r matches Some((_, p)) ==> pos <= p <= s.len(),
    decreases s.len() - pos, 15nat,
{
    match parse_inter(s, pos) {
        None => None,
        Some((head, start)) => {
            let ghost first = head@;
            let mut acc = head;
            let mut p = start;
            let mut done = false;
            while !done
                invariant
                    pos <= start <= p <= s.len(),
                    nest_rest(s@, p as int, acc@) == nest_rest(s@, start as int, first),
                    done ==> nest_rest(s@, p as int, acc@) == (acc@, p as int),
                decreases
                        s.len() - p,
                        if done {
                            0nat
                        } else {
                            1nat
                        },
            {
                match parse_nest_op(s, p) {
                    None => {
                        done = true;
                    },
                    Some((kind, q)) => match parse_inter(s, q) {
                        None => {
                            done = true;
                        },
                        Some((t, q2)) => {
                            acc = Expr::Nest { outer: Box::new(acc), inner: Box::new(t), kind };
                            p = q2;
                        },
                    },
                }
            }
            Some((acc, p))
        },
    }
}

fn parse_inter(s: &Vec<char>, pos: usize) -> (r: Option<(Expr, usize)>)
    requires
        pos <= s.len(),
    ensures
        agrees(r, inter_at(s@, pos as int)),
        r matches Some((_, p)) ==> pos <= p <= s.len(),
    decreases s.len() - pos, 13nat,
{
    match parse_pow(s, pos) {
        None => None,
        Some((head, start)) => {
            let ghost first = head@;
            let mut terms = single(head);
            let mut p = start;
            let mut done = false;
            while !done
                invariant
                    pos <= start <= p <= s.len(),
                    terms@.len() >= 1,
                    inter_rest(s@, p as int, exprs_view(terms@)) == inter_rest(
                        s@,
                        start as int,
                        seq![first],
                    ),
                    done ==> inter_rest(s@, p as int, exprs_view(terms@)) == (
                        exprs_view(terms@),
                        p as int,
                    ),
                decreases
                        s.len() - p,
                        if done {
                            0nat
                        } else {
                            1nat
                        },
            {
                if eat_char(s, p, ':') {
                    match parse_pow(s, p + 1) {
                        None => {
                            done = true;
                        },
                        Some((t, q)) => {
                            push_expr(&mut terms, t);
                            p = q;
                        },
                    }
                } else {
                    done = true;
                }
            }
            let e = if terms.len() == 1 {
                only(terms)
            } else {
                Expr::Interaction(terms)
            };
            Some((e, p))
        },
    }
}

fn parse_pow(s: &Vec<char>, pos: usize) -> (r: Option<(Expr, usize)>)
    requires
        pos <= s.len(),
    ensures
        agrees(r, pow_at(s@, pos as int)),
        r matches Some((_, p)) ==> pos <= p <= s.len(),
    decreases s.len() - pos, 11nat,
{
    match parse_atom(s, pos) {
        None => None,
        Some((base, p)) => {
            if eat_char(s, p, '^') {
                match parse_exponent(s, p + 1) {
                    Some((e, q)) => Some(
                        (Expr::Pow { base: Box::new(base), exp: Box::new(e) }, q),
                    ),
                    None => Some((base, p)),
                }
            } else {
                Some((base, p))
            }
        },
    }
}

fn parse_exponent(s: &Vec<char>, pos: usize) -> (r: Option<(Expr, usize)>)
    requires
        pos <= s.len(),
    ensures
        agrees(r, exponent_at(s@, pos as int)),
        r matches Some((_, p)) ==> pos <= p <= s.len(),
    decreases s.len() - pos, 7nat,
{
    let p = skip_whitespace(s, pos);
    match parse_number(s, p) {
        Some((n, q)) => Some((number_expr(n), skip_whitespace(s, q))),
        None => match parse_paren(s, p) {
            Some((e, q)) => Some((e, skip_whitespace(s, q))),
            None => None,
        },
    }
}

fn parse_atom(s: &Vec<char>, pos: usize) -> (r: Option<(Expr, usize)>)
    requires
        pos <= s.len(),
    ensures
        agrees(r, atom_at(s@, pos as int)),
        r matches Some((_, p)) ==> pos <= p <= s.len(),
    decreases s.len() - pos, 10nat,
{
    let p = skip_whitespace(s, pos);
    match parse_bare_atom(s, p) {
        Some((e, q)) => Some((e, skip_whitespace(s, q))),
        None => None,
    }
}

fn parse_bare_atom(s: &Vec<char>, pos: usize) -> (r: Option<(Expr, usize)>)
    requires
        pos <= s.len(),
    ensures
        agrees(r, bare_atom_at(s@, pos as int)),
        r matches Some((_, p)) ==> pos <= p <= s.len(),
    decreases s.len() - pos, 9nat,
{
    if let Some((n, q)) = parse_number(s, pos) {
        return Some((number_expr(n), q));
    }
    if let Some((b, q)) = parse_boolean(s, pos) {
        return Some((Expr::Bool(b), q));
    }
    if let Some((t, q)) = parse_string(s, pos) {
        return Some((Expr::Str(t), q));
    }
    if let Some((e, q)) = parse_smooth(s, pos) {
        return Some((e, q));
    }
    if let Some((e, q)) = parse_group_term(s, pos) {
        return Some((e, q));
    }
    if let Some(((name, args), q)) = parse_call(s, pos) {
        return Some((Expr::Func { name, args }, q));
    }
    if let Some((v, q)) = parse_ident(s, pos) {
        return Some((Expr::Var(v), q));
    }
    if let Some((e, q)) = parse_paren(s, pos) {
        return Some((e, q));
    }
    if eat_char(s, pos, '.') {
        return Some((Expr::Dot, pos + 1));
    }
    parse_identity(s, pos)
}

fn parse_paren(s: &Vec<char>, pos: usize) -> (r: Option<(Expr, usize)>)
    requires
        pos <= s.len(),
    ensures
        agrees(r, paren_at(s@, pos as int)),
        r matches Some((_, p)) ==> pos < p <= s.len(),
    decreases s.len() - pos, 5nat,
{
    if eat_char(s, pos, '(') {
        match parse_expr(s, pos + 1) {
            Some((e, q)) => if eat_char(s, q, ')') {
                Some((e, q + 1))
            } else {
                None
            },
            None => None,
        }
    } else {
        None
    }
}

fn parse_identity(s: &Vec<char>, pos: usize) -> (r: Option<(Expr, usize)>)
    requires
        pos <= s.len(),
    ensures
        agrees(r, identity_at(s@, pos as int)),
        r matches Some((_, p)) ==> pos < p <= s.len(),
    decreases s.len() - pos, 6nat,
{
    if eat_char(s, pos, 'I') {
        match parse_paren(s, pos + 1) {
            Some((e, q)) => Some((Expr::Identity(Box::new(e)), q)),
            None => None,
        }
    } else {
        None
    }
}

/// Reads a call: a dotted name and arguments in parentheses.
pub fn parse_call(s: &Vec<char>, pos: usize) -> (r: Option<((String, Vec<Expr>), usize)>)
    requires
        pos <= s.len(),
    ensures
        match r {
            Some(((name, args), p)) => call_at(s@, pos as int) == Some(
                ((name@, exprs_view(args@)), p as int),
            ),
            None => call_at(s@, pos as int) is None,
        },
        r matches Some((_, p)) ==> pos < p <= s.len(),
    decreases s.len() - pos, 6nat,
{
    match parse_dotted(s, pos) {
        None => None,
        Some((name, p)) => {
            if eat_char(s, p, '(') {
                let (args, q) = parse_args(s, p + 1);
                let close = skip_whitespace(s, q);
                if eat_char(s, close, ')') {
                    Some(((name, args), close + 1))
                } else {
                    None
                }
            } else {
                None
            }
        },
    }
}

/// Reads arguments: expressions with `,` between them.
pub fn parse_args(s: &Vec<char>, pos: usize) -> (r: (Vec<Expr>, usize))
    requires
        pos <= s.len(),
    ensures
        list_agrees(r, args_at(s@, pos as int)),
        pos <= r.1 <= s.len(),
        r.0@.len() == 0 ==> r.1 == pos,
    decreases s.len() - pos, 22nat,
{
    match parse_expr(s, pos) {
        None => {
            let none: Vec<Expr> = Vec::new();
            assert(exprs_view(none@) =~= Seq::<ExprView>::empty());
            (none, pos)
        },
        Some((head, start)) => {
            let ghost first = head@;
            let mut terms = single(head);
            let mut p = start;
            let mut done = false;
            while !done
                invariant
                    pos <= start <= p <= s.len(),
                    terms@.len() >= 1,
                    args_rest(s@, p as int, exprs_view(terms@)) == args_rest(
                        s@,
                        start as int,
                        seq![first],
                    ),
                    done ==> args_rest(s@, p as int, exprs_view(terms@)) == (
                        exprs_view(terms@),
                        p as int,
                    ),
                decreases
                        s.len() - p,
                        if done {
                            0nat
                        } else {
                            1nat
                        },
            {
                if eat_char(s, p, ',') {
                    match parse_expr(s, p + 1) {
                        None => {
                            done = true;
                        },
                        Some((t, q)) => {
                            push_expr(&mut terms, t);
                            p = q;
                        },
                    }
                } else {
                    done = true;
                }
            }
            (terms, p)
        },
    }
}

/// Reads the character `c` and the blanks round it.
pub fn parse_padded_char(s: &Vec<char>, pos: usize, c: char) -> (r: Option<usize>)
    requires
        pos <= s.len(),
    ensures
        match r {
            Some(p) => padded_char_at(s@, pos as int, c) == Some(p as int),
            None => padded_char_at(s@, pos as int, c) is None,
        },
        r matches Some(p) ==> pos < p <= s.len(),
{
    let q = skip_whitespace(s, pos);
    if eat_char(s, q, c) {
        Some(skip_whitespace(s, q + 1))
    } else {
        None
    }
}

pub fn parse_named_arg(s: &Vec<char>, pos: usize) -> (r: Option<((String, Expr), usize)>)
    requires
        pos <= s.len(),
    ensures
        match r {
            Some(((key, value), p)) => named_arg_at(s@, pos as int) == Some(
                ((key@, value@), p as int),
            ),
            None => named_arg_at(s@, pos as int) is None,
        },
        r matches Some((_, p)) ==> pos < p <= s.len(),
    decreases s.len() - pos, 23nat,
{
    let start = skip_whitespace(s, pos);
    match parse_ident(s, start) {
        None => None,
        Some((key, p)) => match parse_padded_char(s, p, '=') {
            None => None,
            Some(q) => match parse_expr(s, q) {
                None => None,
                Some((value, q2)) => Some(((key, value), q2)),
            },
        },
    }
}

/// Sets the argument `key` to `value`.
pub fn put_named(args: &mut Vec<(String, Expr)>, key: String, value: Expr)
    ensures
        named_view(final(args)@) == named_put(named_view(old(args)@), key@, value@),
{
    let ghost before = named_view(args@);
    let mut i: usize = 0;
    while i < args.len()
        invariant
            i <= args.len(),
            before == named_view(old(args)@),
            named_view(args@) == before,
            key_index(before, key@, 0) == key_index(before, key@, i as int),
        decreases args.len() - i,
    {
        assert(before[i as int].0 == args@[i as int].0@);
        if args[i].0 == key {
            assert(key_index(before, key@, i as int) == i as int);
            args.set(i, (key, value));
            assert(named_view(args@) =~= before.update(i as int, (key@, value@)));
            return ;
        }
        assert(key_index(before, key@, i as int) == key_index(before, key@, i + 1));
        i += 1;
    }
    assert(before.len() == args@.len());
    assert(key_index(before, key@, args@.len() as int) == -1);
    push_named(args, key, value);
}

/// Reads named arguments with `,` between them.
pub fn parse_named_args(s: &Vec<char>, pos: usize) -> (r: (Vec<(String, Expr)>, usize))
    requires
        pos <= s.len(),
    ensures
        (named_view(r.0@), r.1 as int) == named_args_at(s@, pos as int),
        pos <= r.1 <= s.len(),
    decreases s.len() - pos, 25nat,
{
    let mut args: Vec<(String, Expr)> = Vec::new();
    assert(named_view(args@) =~= Seq::<(Text, ExprView)>::empty());
    match parse_named_arg(s, pos) {
        None => (args, pos),
        Some(((key, value), start)) => {
            let ghost first = named_put(Seq::empty(), key@, value@);
            put_named(&mut args, key, value);
            let mut p = start;
            let mut done = false;
            while !done
                invariant
                    pos <= start <= p <= s.len(),
                    named_args_rest(s@, p as int, named_view(args@)) == named_args_rest(
                        s@,
                        start as int,
                        first,
                    ),
                    done ==> named_args_rest(s@, p as int, named_view(args@)) == (
                        named_view(args@),
                        p as int,
                    ),
                decreases
                        s.len() - p,
                        if done {
                            0nat
                        } else {
                            1nat
                        },
            {
                if eat_char(s, p, ',') {
                    match parse_named_arg(s, p + 1) {
                        None => {
                            done = true;
                        },
                        Some(((k, v), q)) => {
                            put_named(&mut args, k, v);
                            p = q;
                        },
                    }
                } else {
                    done = true;
                }
            }
            (args, p)
        },
    }
}

fn parse_name_item(s: &Vec<char>, pos: usize) -> (r: Option<(String, usize)>)
    requires
        pos <= s.len(),
    ensures
        text_agrees(r, name_item_at(s@, pos as int)),
        r matches Some((_, p)) ==> pos < p <= s.len(),
{
    let start = skip_whitespace(s, pos);
    match parse_ident(s, start) {
        None => None,
        Some((name, e)) => {
            let q = skip_whitespace(s, e);
            if eat_char(s, q, '=') {
                None
            } else {
                Some((name, q))
            }
        },
    }
}

/// Reads one or more names with `,` between them.
pub fn parse_names(s: &Vec<char>, pos: usize) -> (r: Option<(Vec<String>, usize)>)
    requires
        pos <= s.len(),
    ensures
        match r {
            Some((names, p)) => names_at(s@, pos as int) == Some((texts_view(names@), p as int)),
            None => names_at(s@, pos as int) is None,
        },
        r matches Some((_, p)) ==> pos < p <= s.len(),
{
    match parse_name_item(s, pos) {
        None => None,
        Some((first, start)) => {
            let mut names: Vec<String> = Vec::new();
            let ghost head = first@;
            push_text(&mut names, first);
            assert(texts_view(names@) =~= seq![head]);
            let mut p = start;
            let mut done = false;
            while !done
                invariant
                    pos < p <= s.len(),
                    names_rest(s@, p as int, texts_view(names@)) == names_rest(
                        s@,
                        start as int,
                        seq![head],
                    ),
                    done ==> names_rest(s@, p as int, texts_view(names@)) == (
                        texts_view(names@),
                        p as int,
                    ),
                decreases
                        s.len() - p,
                        if done {
                            0nat
                        } else {
                            1nat
                        },
            {
                if !eat_char(s, p, ',') {
                    done = true;
                } else {
                    match parse_name_item(s, p + 1) {
                        None => {
                            done = true;
                        },
                        Some((name, next)) => {
                            push_text(&mut names, name);
                            p = next;
                        },
                    }
                }
            }
            Some((names, p))
        },
    }
}

fn smooth_word(kind: SmoothKind) -> (r: &'static str)
    ensures
        r@ == crate::pretty::smooth_kind_text(kind),
{
    match kind {
        SmoothKind::S => "s",
        SmoothKind::T2 => "t2",
        SmoothKind::TE => "te",
        SmoothKind::TI => "ti",
    }
}

fn parse_smooth_form(s: &Vec<char>, pos: usize, kind: SmoothKind) -> (r: Option<(Expr, usize)>)
    requires
        pos <= s.len(),
    ensures
        agrees(r, smooth_form(s@, pos as int, kind)),
        r matches Some((_, p)) ==> pos < p <= s.len(),
    decreases s.len() - pos, 7nat,
{
    match eat(s, pos, smooth_word(kind)) {
        None => None,
        Some(at0) => {
            if !eat_char(s, at0, '(') {
                return None;
            }
            match parse_names(s, at0 + 1) {
                None => None,
                Some((vars, p)) => {
                    if eat_char(s, p, ',') {
                        let (args, q) = parse_named_args(s, p + 1);
                        assert(named_view(args@).len() == args@.len());
                        if args.len() > 0 && eat_char(s, q, ')') {
                            Some((Expr::Smooth { kind, vars, args }, q + 1))
                        } else {
                            None
                        }
                    } else if eat_char(s, p, ')') {
                        let none: Vec<(String, Expr)> = Vec::new();
                        assert(named_view(none@) =~= Seq::<(Text, ExprView)>::empty());
                        Some((Expr::Smooth { kind, vars, args: none }, p + 1))
                    } else {
                        None
                    }
                },
            }
        },
    }
}

fn parse_smooth(s: &Vec<char>, pos: usize) -> (r: Option<(Expr, usize)>)
    requires
        pos <= s.len(),
    ensures
        agrees(r, smooth_at(s@, pos as int)),
        r matches Some((_, p)) ==> pos < p <= s.len(),
    decreases s.len() - pos, 8nat,
{
    if let Some((e, q)) = parse_smooth_form(s, pos, SmoothKind::S) {
        return Some((e, q));
    }
    if let Some((e, q)) = parse_smooth_form(s, pos, SmoothKind::T2) {
        return Some((e, q));
    }
    if let Some((e, q)) = parse_smooth_form(s, pos, SmoothKind::TE) {
        return Some((e, q));
    }
    parse_smooth_form(s, pos, SmoothKind::TI)
}

fn parse_group_op(s: &Vec<char>, pos: usize) -> (r: Option<GroupOp>)
    requires
        pos <= s.len(),
    ensures
        r == group_op_at(s@, pos as int),
        r is Some ==> pos < s.len(),
{
    if eat_char(s, pos, ':') {
        Some(GroupOp::Cross)
    } else if eat_char(s, pos, '/') {
        Some(GroupOp::Nest)
    } else if eat_char(s, pos, '+') {
        Some(GroupOp::Split)
    } else {
        None
    }
}

fn parse_chain(s: &Vec<char>, pos: usize) -> (r: Option<(Vec<(String, Option<GroupOp>)>, usize)>)
    requires
        pos <= s.len(),
    ensures
        match r {
            Some((chain, p)) => chain_at(s@, pos as int) == Some((chain_view(chain@), p as int)),
            None => chain_at(s@, pos as int) is None,
        },
        r matches Some((_, p)) ==> pos < p <= s.len(),
{
    match parse_ident(s, pos) {
        None => None,
        Some((name, start)) => {
            let ghost first = name@;
            let mut chain: Vec<(String, Option<GroupOp>)> = Vec::new();
            chain.push((name, None));
            assert(chain_view(chain@) =~= seq![(first, None::<GroupOp>)]);
            let mut p = start;
            let mut done = false;
            while !done
                invariant
                    pos < start <= p <= s.len(),
                    chain_rest(s@, p as int, chain_view(chain@)) == chain_rest(
                        s@,
                        start as int,
                        seq![(first, None::<GroupOp>)],
                    ),
                    done ==> chain_rest(s@, p as int, chain_view(chain@)) == (
                        chain_view(chain@),
                        p as int,
                    ),
                decreases
                        s.len() - p,
                        if done {
                            0nat
                        } else {
                            1nat
                        },
            {
                match parse_group_op(s, p) {
                    None => {
                        done = true;
                    },
                    Some(op) => match parse_ident(s, p + 1) {
                        None => {
                            done = true;
                        },
                        Some((next, q)) => {
                            let ghost before = chain_view(chain@);
                            chain.push((next, Some(op)));
                            assert(chain_view(chain@) =~= before.push((next@, Some(op))));
                            p = q;
                        },
                    },
                }
            }
            Some((chain, p))
        },
    }
}

fn parse_group_spec(s: &Vec<char>, pos: usize) -> (r: Option<(GroupSpec, usize)>)
    requires
        pos <= s.len(),
    ensures
        match r {
            Some((spec, p)) => group_spec_at(s@, pos as int) == Some((spec@, p as int)),
            None => group_spec_at(s@, pos as int) is None,
        },
        r matches Some((_, p)) ==> pos < p <= s.len(),
    decreases s.len() - pos, 23nat,
{
    match parse_call(s, pos) {
        Some(((name, args), p)) => Some((GroupSpec::Func { name, args }, skip_whitespace(s, p))),
        None => match parse_chain(s, pos) {
            Some((chain, p)) => Some((GroupSpec::Expr(GroupExpr(chain)), skip_whitespace(s, p))),
            None => None,
        },
    }
}

fn name_of_spec(spec: &GroupSpec) -> (r: Option<String>)
    ensures
        crate::ast::option_text(r) == bare_name(spec@),
{
    match spec {
        GroupSpec::Expr(chain) => {
            assert(chain_view(chain.0@).len() == chain.0@.len());
            if chain.0.len() == 1 {
                assert(chain_view(chain.0@)[0].0 == chain.0@[0].0@);
                Some(chain.0[0].0.clone())
            } else {
                None
            }
        },
        _ => None,
    }
}

fn close_group(
    s: &Vec<char>,
    found: Option<(GroupSpec, usize)>,
    inner: Expr,
    kind: GroupKind,
    id: Option<String>,
) -> (r: Option<(Expr, usize)>)
    requires
        found matches Some((_, p)) ==> p <= s.len(),
    ensures
        agrees(
            r,
            closed_group(
                s@,
                match found {
                    Some((spec, p)) => Some((spec@, p as int)),
                    None => None,
                },
                inner@,
                kind,
                crate::ast::option_text(id),
            ),
        ),
        r matches Some((_, p)) ==> found matches Some((_, q)) && q < p <= s.len(),
{
    match found {
        None => None,
        Some((spec, p)) => {
            if eat_char(s, p, ')') {
                Some((Expr::Group { inner: Box::new(inner), spec, kind, id }, p + 1))
            } else {
                None
            }
        },
    }
}

fn parse_group_tail(s: &Vec<char>, pos: usize, inner: Expr) -> (r: Option<(Expr, usize)>)
    requires
        pos <= s.len(),
    ensures
        agrees(r, group_tail_at(s@, pos as int, inner@)),
        r matches Some((_, p)) ==> pos < p <= s.len(),
    decreases s.len() - pos, 24nat,
{
    if eat_char(s, pos, '|') {
        let q = skip_whitespace(s, pos + 1);
        let found = parse_group_spec(s, q);
        close_group(s, found, inner, GroupKind::Uncorrelated, None)
    } else {
        match parse_group_spec(s, pos) {
            None => None,
            Some((first, p)) => {
                let name = name_of_spec(&first);
                if eat_char(s, p, '|') && name.is_some() {
                    let q = skip_whitespace(s, p + 1);
                    let found = parse_group_spec(s, q);
                    close_group(s, found, inner, GroupKind::Correlated, name)
                } else {
                    close_group(s, Some((first, p)), inner, GroupKind::Correlated, None)
                }
            },
        }
    }
}

fn parse_group_term(s: &Vec<char>, pos: usize) -> (r: Option<(Expr, usize)>)
    requires
        pos <= s.len(),
    ensures
        agrees(r, group_term_at(s@, pos as int)),
        r matches Some((_, p)) ==> pos < p <= s.len(),
    decreases s.len() - pos, 8nat,
{
    if !eat_char(s, pos, '(') {
        return None;
    }
    match parse_expr(s, pos + 1) {
        None => None,
        Some((inner, p)) => {
            if eat_char(s, p, '|') {
                let q = skip_whitespace(s, p + 1);
                parse_group_tail(s, q, inner)
            } else {
                None
            }
        },
    }
}

/// Whether a read autocorrelation term agrees with the grammar.
pub open spec fn autocor_agrees(
    r: Option<(Autocor, usize)>,
    m: Option<(crate::ast::AutocorView, int)>,
) -> bool {
    match r {
        Some((a, p)) => m == Some((a@, p as int)),
        None => m is None,
    }
}

fn parse_autocor_with(s: &Vec<char>, pos: usize, name: &str) -> (r: Option<(Autocor, usize)>)
    requires
        pos <= s.len(),
    ensures
        autocor_agrees(r, autocor_with(s@, pos as int, name@)),
        r matches Some((_, p)) ==> pos < p <= s.len(),
    decreases s.len() - pos, 26nat,
{
    match eat(s, pos, name) {
        None => None,
        Some(p) => {
            if !eat_char(s, p, '(') {
                return None;
            }
            let (args, q) = parse_named_args(s, p + 1);
            let close = skip_whitespace(s, q);
            if eat_char(s, close, ')') {
                Some((Autocor { name: String::from_str(name), args }, close + 1))
            } else {
                None
            }
        },
    }
}

/// Reads an autocorrelation term.
pub fn parse_autocor(s: &Vec<char>, pos: usize) -> (r: Option<(Autocor, usize)>)
    requires
        pos <= s.len(),
    ensures
        autocor_agrees(r, autocor_at(s@, pos as int)),
        r matches Some((_, p)) ==> pos < p <= s.len(),
    decreases s.len() - pos, 27nat,
{
    if let Some((a, q)) = parse_autocor_with(s, pos, "ar") {
        return Some((a, q));
    }
    if let Some((a, q)) = parse_autocor_with(s, pos, "ma") {
        return Some((a, q));
    }
    if let Some((a, q)) = parse_autocor_with(s, pos, "arma") {
        return Some((a, q));
    }
    if let Some((a, q)) = parse_autocor_with(s, pos, "cosy") {
        return Some((a, q));
    }
    if let Some((a, q)) = parse_autocor_with(s, pos, "unstr") {
        return Some((a, q));
    }
    if let Some((a, q)) = parse_autocor_with(s, pos, "sar") {
        return Some((a, q));
    }
    if let Some((a, q)) = parse_autocor_with(s, pos, "car") {
        return Some((a, q));
    }
    parse_autocor_with(s, pos, "fcor")
}

fn parse_dpar_word(s: &Vec<char>, pos: usize, name: &str) -> (r: Option<(String, usize)>)
    requires
        pos <= s.len(),
    ensures
        text_agrees(r, dpar_head(s@, pos as int, name@)),
        r matches Some((_, p)) ==> pos < p <= s.len(),
{
    match eat(s, pos, name) {
        None => None,
        Some(p) => match parse_padded_char(s, p, '~') {
            Some(q) => Some((String::from_str(name), q)),
            None => None,
        },
    }
}

fn parse_dpar_head_late(s: &Vec<char>, pos: usize) -> (r: Option<(String, usize)>)
    requires
        pos <= s.len(),
    ensures
        text_agrees(
            r,
            first_of(
                dpar_head(s@, pos as int, "kappa"@),
                first_of(
                    dpar_head(s@, pos as int, "beta"@),
                    first_of(
                        dpar_head(s@, pos as int, "disc"@),
                        first_of(
                            dpar_head(s@, pos as int, "bs"@),
                            first_of(
                                dpar_head(s@, pos as int, "ndt"@),
                                dpar_head(s@, pos as int, "bias"@),
                            ),
                        ),
                    ),
                ),
            ),
        ),
        r matches Some((_, p)) ==> pos < p <= s.len(),
{
    if let Some((w, q)) = parse_dpar_word(s, pos, "kappa") {
        return Some((w, q));
    }
    if let Some((w, q)) = parse_dpar_word(s, pos, "beta") {
        return Some((w, q));
    }
    if let Some((w, q)) = parse_dpar_word(s, pos, "disc") {
        return Some((w, q));
    }
    if let Some((w, q)) = parse_dpar_word(s, pos, "bs") {
        return Some((w, q));
    }
    if let Some((w, q)) = parse_dpar_word(s, pos, "ndt") {
        return Some((w, q));
    }
    parse_dpar_word(s, pos, "bias")
}

/// Reads the start of the formula of a distributional parameter.
pub fn parse_dpar_head(s: &Vec<char>, pos: usize) -> (r: Option<(String, usize)>)
    requires
        pos <= s.len(),
    ensures
        text_agrees(r, dpar_head_at(s@, pos as int)),
        r matches Some((_, p)) ==> pos < p <= s.len(),
{
    if let Some((w, q)) = parse_dpar_word(s, pos, "sigma") {
        return Some((w, q));
    }
    if let Some((w, q)) = parse_dpar_word(s, pos, "nu") {
        return Some((w, q));
    }
    if let Some((w, q)) = parse_dpar_word(s, pos, "phi") {
        return Some((w, q));
    }
    if let Some((w, q)) = parse_dpar_word(s, pos, "zi") {
        return Some((w, q));
    }
    if let Some((w, q)) = parse_dpar_word(s, pos, "hu") {
        return Some((w, q));
    }
    if let Some((w, q)) = parse_dpar_word(s, pos, "zoi") {
        return Some((w, q));
    }
    if let Some((w, q)) = parse_dpar_word(s, pos, "coi") {
        return Some((w, q));
    }
    parse_dpar_head_late(s, pos)
}

fn starts_tail(s: &Vec<char>, pos: usize) -> (r: bool)
    requires
        pos <= s.len(),
    ensures
        r == tail_starts(s@, pos as int),
    decreases s.len() - pos, 28nat,
{
    if parse_dpar_head(s, pos).is_some() {
        return true;
    }
    match parse_autocor(s, pos) {
        Some((a, _)) => {
            assert(a@.args.len() == a.args@.len());
            a.args.len() > 0
        },
        None => false,
    }
}

} // verus!
