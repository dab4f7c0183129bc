//! The parser of formulas.

use crate::ast::{
    aterms_view, autocors_view, dpars_view, exprs_view, families_view, push_text, texts_view,
    Aterm, AtermView, Autocor, AutocorView, Dpar, DparView, Expr, ExprView, Family, FamilyView,
    Formula, Link, LinkView, ModelSpec, Response, ResponseView, Text,
};
use crate::formula::{
    aterm_at, aterms_rest, bare_aterm_at, bound_at, builtin_family, chosen_header, closing_at,
    custom_at, dpar_at, end_of, families_rest, family_at, fold_trials, full_form, header_at,
    link_at, link_part_at, list_call_at, member_at, mi_at, mixture_at, model_at, model_of,
    multi_at, response_at, response_basic_at, rhs_only_form, string_item_at, strings_rest,
    surv_at, tail_at, thres_at, trailing_header_at, trunc_at, unary_aterm, unary_aterm_at,
    unary_at, value_of, vint_at, vreal_at,
};
use crate::grammar::{call_at, first_of};
use crate::lex::{eat, eat_char, parse_dotted, parse_ident, parse_string, skip_whitespace};
use crate::reading::{
    agrees, parse_args, parse_autocor, parse_call, parse_dpar_head, parse_expr, parse_names,
    parse_padded_char,
};
use crate::text::chars_of;
use crate::named_model::{model_read_is_well_named, well_named_model};
use vstd::prelude::*;

verus! {

/// Why a text is no formula.
#[derive(Debug)]
pub enum ParseError {
    Generic(String),
}

impl ParseError {
    /// The error as one line of text.
    pub fn message(&self) -> (r: String)
        ensures
            r@ == "parse error: "@ + self->Generic_0@,
    {
        match self {
            ParseError::Generic(msg) => {
                let mut out = String::from_str("parse error: ");
                out.append(msg.as_str());
                out
            },
        }
    }
}

fn parse_unary(s: &Vec<char>, pos: usize, word: &str) -> (r: Option<(Expr, usize)>)
    requires
        pos <= s.len(),
    ensures
        agrees(r, unary_at(s@, pos as int, word@)),
        r matches Some((_, p)) ==> pos < p <= s.len(),
{
    match eat(s, pos, word) {
        None => None,
        Some(p) => {
            if !eat_char(s, p, '(') {
                return None;
            }
            match parse_expr(s, p + 1) {
                None => None,
                Some((e, q)) => if eat_char(s, q, ')') {
                    Some((e, q + 1))
                } else {
                    None
                },
            }
        },
    }
}

fn parse_bound(s: &Vec<char>, pos: usize, word: &str) -> (r: Option<(Expr, usize)>)
    requires
        pos <= s.len(),
    ensures
        agrees(r, bound_at(s@, pos as int, word@)),
        r matches Some((_, p)) ==> pos <= p <= s.len(),
{
    let start = skip_whitespace(s, pos);
    match eat(s, start, word) {
        None => None,
        Some(p) => match parse_padded_char(s, p, '=') {
            None => None,
            Some(q) => parse_expr(s, q),
        },
    }
}

fn parse_list_call(s: &Vec<char>, pos: usize, word: &str) -> (r: Option<(Vec<Expr>, usize)>)
    requires
        pos <= s.len(),
    ensures
        match r {
            Some((es, p)) => list_call_at(s@, pos as int, word@) == Some(
                (exprs_view(es@), p as int),
            ),
            None => list_call_at(s@, pos as int, word@) is None,
        },
        r matches Some((_, p)) ==> pos < p <= s.len(),
{
    match eat(s, pos, word) {
        None => None,
        Some(p) => {
            if !eat_char(s, p, '(') {
                return None;
            }
            let (es, q) = parse_args(s, p + 1);
            assert(exprs_view(es@).len() == es@.len());
            if es.len() > 0 && eat_char(s, q, ')') {
                Some((es, q + 1))
            } else {
                None
            }
        },
    }
}

/// Whether a read modifier agrees with the grammar.
pub open spec fn aterm_agrees(r: Option<(Aterm, usize)>, m: Option<(AtermView, int)>) -> bool {
    match r {
        Some((a, p)) => m == Some((a@, p as int)),
        None => m is None,
    }
}

fn split(found: Option<(Expr, usize)>, otherwise: usize) -> (r: (Option<Expr>, usize))
    ensures
        crate::ast::option_expr_view(r.0) == value_of(
            match found {
                Some((e, p)) => Some((e@, p as int)),
                None => None,
            },
        ),
        r.1 as int == end_of(
            match found {
                Some((e, p)) => Some((e@, p as int)),
                None => None,
            },
            otherwise as int,
        ),
        r.1 == match found {
            Some((_, p)) => p,
            None => otherwise,
        },
{
    match found {
        Some((e, p)) => (Some(e), p),
        None => (None, otherwise),
    }
}

fn parse_trunc(s: &Vec<char>, pos: usize) -> (r: Option<(Aterm, usize)>)
    requires
        pos <= s.len(),
    ensures
        aterm_agrees(r, trunc_at(s@, pos as int)),
        r matches Some((_, p)) ==> pos < p <= s.len(),
{
    match eat(s, pos, "trunc") {
        None => None,
        Some(at0) => {
            if !eat_char(s, at0, '(') {
                return None;
            }
            let start = at0 + 1;
            let lower = parse_bound(s, start, "lb");
            let upper = match &lower {
                Some((_, q)) => {
                    if eat_char(s, *q, ',') {
                        parse_bound(s, *q + 1, "ub")
                    } else {
                        None
                    }
                },
                None => parse_bound(s, start, "ub"),
            };
            let (lb, at1) = split(lower, start);
            let (ub, at2) = split(upper, at1);
            let close = skip_whitespace(s, at2);
            if eat_char(s, close, ')') {
                Some((Aterm::Trunc { lb, ub }, close + 1))
            } else {
                None
            }
        },
    }
}

fn parse_thres(s: &Vec<char>, pos: usize) -> (r: Option<(Aterm, usize)>)
    requires
        pos <= s.len(),
    ensures
        aterm_agrees(r, thres_at(s@, pos as int)),
        r matches Some((_, p)) ==> pos < p <= s.len(),
{
    match eat(s, pos, "thres") {
        None => None,
        Some(at0) => {
            if !eat_char(s, at0, '(') {
                return None;
            }
            let start = at0 + 1;
            let (gr, at1) = split(parse_bound(s, start, "gr"), start);
            let close = skip_whitespace(s, at1);
            if eat_char(s, close, ')') {
                Some((Aterm::Thres { gr }, close + 1))
            } else {
                None
            }
        },
    }
}

fn parse_mi(s: &Vec<char>, pos: usize) -> (r: Option<(Aterm, usize)>)
    requires
        pos <= s.len(),
    ensures
        aterm_agrees(r, mi_at(s@, pos as int)),
        r matches Some((_, p)) ==> pos < p <= s.len(),
{
    match eat(s, pos, "mi") {
        None => None,
        Some(p) => {
            if !eat_char(s, p, '(') {
                return None;
            }
            let close = skip_whitespace(s, p + 1);
            if eat_char(s, close, ')') {
                Some((Aterm::Mi, close + 1))
            } else {
                None
            }
        },
    }
}

fn unary_of(tag: u8, e: Expr) -> (r: Aterm)
    ensures
        r@ == unary_aterm(tag as int, e@),
{
    if tag == 0 {
        Aterm::Se(e)
    } else if tag == 1 {
        Aterm::Weights(e)
    } else if tag == 2 {
        Aterm::Trials(e)
    } else if tag == 3 {
        Aterm::Cens(e)
    } else if tag == 5 {
        Aterm::Subset(e)
    } else if tag == 6 {
        Aterm::Rate(e)
    } else if tag == 8 {
        Aterm::Dec(e)
    } else if tag == 9 {
        Aterm::Cat(e)
    } else {
        Aterm::Index(e)
    }
}

fn parse_unary_aterm(s: &Vec<char>, pos: usize, word: &str, tag: u8) -> (r: Option<
    (Aterm, usize),
>)
    requires
        pos <= s.len(),
    ensures
        aterm_agrees(r, unary_aterm_at(s@, pos as int, word@, tag as int)),
        r matches Some((_, p)) ==> pos < p <= s.len(),
{
    match parse_unary(s, pos, word) {
        Some((e, q)) => Some((unary_of(tag, e), q)),
        None => None,
    }
}

fn parse_aterm_late(s: &Vec<char>, pos: usize) -> (r: Option<(Aterm, usize)>)
    requires
        pos <= s.len(),
    ensures
        aterm_agrees(
            r,
            first_of(
                unary_aterm_at(s@, pos as int, "dec"@, 8),
                first_of(
                    unary_aterm_at(s@, pos as int, "cat"@, 9),
                    first_of(
                        unary_aterm_at(s@, pos as int, "index"@, 10),
                        first_of(
                            vreal_at(s@, pos as int),
                            first_of(vint_at(s@, pos as int), mi_at(s@, pos as int)),
                        ),
                    ),
                ),
            ),
        ),
        r matches Some((_, p)) ==> pos < p <= s.len(),
{
    if let Some((a, q)) = parse_unary_aterm(s, pos, "dec", 8) {
        return Some((a, q));
    }
    if let Some((a, q)) = parse_unary_aterm(s, pos, "cat", 9) {
        return Some((a, q));
    }
    if let Some((a, q)) = parse_unary_aterm(s, pos, "index", 10) {
        return Some((a, q));
    }
    if let Some((es, q)) = parse_list_call(s, pos, "vreal") {
        return Some((Aterm::VReal(es), q));
    }
    if let Some((es, q)) = parse_list_call(s, pos, "vint") {
        return Some((Aterm::VInt(es), q));
    }
    parse_mi(s, pos)
}

fn parse_bare_aterm(s: &Vec<char>, pos: usize) -> (r: Option<(Aterm, usize)>)
    requires
        pos <= s.len(),
    ensures
        aterm_agrees(r, bare_aterm_at(s@, pos as int)),
        r matches Some((_, p)) ==> pos < p <= s.len(),
{
    if let Some((a, q)) = parse_unary_aterm(s, pos, "se", 0) {
        return Some((a, q));
    }
    if let Some((a, q)) = parse_unary_aterm(s, pos, "weights", 1) {
        return Some((a, q));
    }
    if let Some((a, q)) = parse_unary_aterm(s, pos, "trials", 2) {
        return Some((a, q));
    }
    if let Some((a, q)) = parse_unary_aterm(s, pos, "cens", 3) {
        return Some((a, q));
    }
    if let Some((a, q)) = parse_trunc(s, pos) {
        return Some((a, q));
    }
    if let Some((a, q)) = parse_unary_aterm(s, pos, "subset", 5) {
        return Some((a, q));
    }
    if let Some((a, q)) = parse_unary_aterm(s, pos, "rate", 6) {
        return Some((a, q));
    }
    if let Some((a, q)) = parse_thres(s, pos) {
        return Some((a, q));
    }
    parse_aterm_late(s, pos)
}

fn parse_aterm(s: &Vec<char>, pos: usize) -> (r: Option<(Aterm, usize)>)
    requires
        pos <= s.len(),
    ensures
        aterm_agrees(r, aterm_at(s@, pos as int)),
        r matches Some((_, p)) ==> pos < p <= s.len(),
{
    match parse_bare_aterm(s, skip_whitespace(s, pos)) {
        Some((a, q)) => Some((a, skip_whitespace(s, q))),
        None => None,
    }
}

fn parse_aterms_rest(s: &Vec<char>, start: usize, head: Aterm) -> (r: (Vec<Aterm>, usize))
    requires
        start <= s.len(),
    ensures
        (aterms_view(r.0@), r.1 as int) == aterms_rest(s@, start as int, seq![head@]),
        start <= r.1 <= s.len(),
{
    let ghost first = head@;
    let mut chain: Vec<Aterm> = Vec::new();
    chain.push(head);
    assert(aterms_view(chain@) =~= seq![first]);
    let mut p = start;
    let mut done = false;
    while !done
        invariant
            start <= p <= s.len(),
            aterms_rest(s@, p as int, aterms_view(chain@)) == aterms_rest(
                s@,
                start as int,
                seq![first],
            ),
            done ==> aterms_rest(s@, p as int, aterms_view(chain@)) == (
                aterms_view(chain@),
                p as int,
            ),
        decreases
                s.len() - p,
                if done {
                    0nat
                } else {
                    1nat
                },
    {
        if eat_char(s, p, '|') || eat_char(s, p, ',') {
            match parse_aterm(s, p + 1) {
                None => {
                    done = true;
                },
                Some((a, q)) => {
                    let ghost before = aterms_view(chain@);
                    chain.push(a);
                    assert(aterms_view(chain@) =~= before.push(a@));
                    p = q;
                },
            }
        } else {
            done = true;
        }
    }
    (chain, p)
}

/// Whether a read response agrees with the grammar.
pub open spec fn response_agrees(r: Option<(Response, usize)>, m: Option<(ResponseView, int)>) -> bool {
    match r {
        Some((a, p)) => m == Some((a@, p as int)),
        None => m is None,
    }
}

fn parse_multi(s: &Vec<char>, pos: usize, word: &str) -> (r: Option<(Response, usize)>)
    requires
        pos <= s.len(),
    ensures
        response_agrees(r, multi_at(s@, pos as int, word@)),
        r matches Some((_, p)) ==> pos < p <= s.len(),
{
    match eat(s, pos, word) {
        None => None,
        Some(p) => {
            if !eat_char(s, p, '(') {
                return None;
            }
            match parse_names(s, p + 1) {
                None => None,
                Some((names, q)) => {
                    assert(texts_view(names@).len() == names@.len());
                    if names.len() >= 2 && eat_char(s, q, ')') {
                        Some((Response::Multi(names), q + 1))
                    } else {
                        None
                    }
                },
            }
        },
    }
}

fn take_last(v: &mut Vec<Expr>) -> (r: Expr)
    requires
        old(v)@.len() > 0,
    ensures
        r@ == exprs_view(old(v)@).last(),
        exprs_view(final(v)@) == exprs_view(old(v)@).drop_last(),
        final(v)@.len() == old(v)@.len() - 1,
{
    let ghost before = exprs_view(v@);
    assert(before.len() == v@.len());
    assert(before.last() == v@[v@.len() - 1]@);
    let last = v.pop();
    assert(exprs_view(v@) =~= before.drop_last());
    match last {
        Some(e) => e,
        None => Expr::Dot,
    }
}

fn parse_surv(s: &Vec<char>, pos: usize) -> (r: Option<(Response, usize)>)
    requires
        pos <= s.len(),
    ensures
        response_agrees(r, surv_at(s@, pos as int)),
        r matches Some((_, p)) ==> pos < p <= s.len(),
{
    match eat(s, pos, "Surv") {
        None => None,
        Some(at0) => {
            if !eat_char(s, at0, '(') {
                return None;
            }
            let (args, q) = parse_args(s, at0 + 1);
            let ghost view = exprs_view(args@);
            assert(view.len() == args@.len());
            if (args.len() == 2 || args.len() == 3) && eat_char(s, q, ')') {
                let mut args = args;
                let time2 = if args.len() == 3 {
                    Some(take_last(&mut args))
                } else {
                    None
                };
                let event = take_last(&mut args);
                let time = take_last(&mut args);
                Some((Response::Surv { time, event, time2 }, q + 1))
            } else {
                None
            }
        },
    }
}

fn parse_response_basic(s: &Vec<char>, pos: usize) -> (r: Option<(Response, usize)>)
    requires
        pos <= s.len(),
    ensures
        response_agrees(r, response_basic_at(s@, pos as int)),
        r matches Some((_, p)) ==> pos < p <= s.len(),
{
    if let Some((r, q)) = parse_multi(s, pos, "mvbind") {
        return Some((r, q));
    }
    if let Some((r, q)) = parse_multi(s, pos, "cbind") {
        return Some((r, q));
    }
    if let Some((r, q)) = parse_surv(s, pos) {
        return Some((r, q));
    }
    if let Some(((name, args), q)) = parse_call(s, pos) {
        return Some((Response::Func { name, args }, q));
    }
    match parse_ident(s, pos) {
        Some((v, q)) => Some((Response::Var(v), q)),
        None => None,
    }
}

fn fold_binomial(base: Response, chain: Vec<Aterm>) -> (r: (Response, Vec<Aterm>))
    ensures
        (r.0@, aterms_view(r.1@)) == fold_trials(base@, aterms_view(chain@)),
{
    let mut chain = chain;
    assert(aterms_view(chain@).len() == chain@.len());
    if chain.len() == 1 {
        assert(aterms_view(chain@)[0] == chain@[0]@);
        let is_trials = match &chain[0] {
            Aterm::Trials(_) => true,
            _ => false,
        };
        let is_var = match &base {
            Response::Var(_) => true,
            _ => false,
        };
        if is_trials && is_var {
            let only = chain.pop();
            assert(aterms_view(chain@) =~= Seq::<AtermView>::empty());
            match (base, only) {
                (Response::Var(v), Some(Aterm::Trials(n))) => {
                    let successes = Expr::Var(v);
                    assert(successes@ == ExprView::Var(v@));
                    return (Response::BinomialTrials { successes, trials: n }, chain);
                },
                (other, _) => {
                    return (other, chain);
                },
            }
        }
    }
    (base, chain)
}

fn parse_response(s: &Vec<char>, pos: usize) -> (r: Option<((Response, Vec<Aterm>), usize)>)
    requires
        pos <= s.len(),
    ensures
        match r {
            Some(((lhs, aterms), p)) => response_at(s@, pos as int) == Some(
                ((lhs@, aterms_view(aterms@)), p as int),
            ),
            None => response_at(s@, pos as int) is None,
        },
        r matches Some((_, p)) ==> pos < p <= s.len(),
{
    match parse_response_basic(s, skip_whitespace(s, pos)) {
        None => None,
        Some((base, p)) => {
            let q = skip_whitespace(s, p);
            if eat_char(s, q, '|') {
                match parse_aterm(s, q + 1) {
                    None => None,
                    Some((a, at2)) => {
                        let (chain, at3) = parse_aterms_rest(s, at2, a);
                        Some((fold_binomial(base, chain), at3))
                    },
                }
            } else {
                let none: Vec<Aterm> = Vec::new();
                assert(aterms_view(none@) =~= Seq::<AtermView>::empty());
                Some(((base, none), q))
            }
        },
    }
}

/// Whether a read family agrees with the grammar.
pub open spec fn family_agrees(r: Option<(Family, usize)>, m: Option<(FamilyView, int)>) -> bool {
    match r {
        Some((a, p)) => m == Some((a@, p as int)),
        None => m is None,
    }
}

fn parse_builtin(s: &Vec<char>, pos: usize) -> (r: Option<(Family, usize)>)
    requires
        pos <= s.len(),
    ensures
        family_agrees(r, builtin_family(call_at(s@, pos as int))),
        r matches Some((_, p)) ==> pos < p <= s.len(),
{
    match parse_call(s, pos) {
        Some(((name, args), q)) => Some((Family::Builtin(name, args), q)),
        None => None,
    }
}

fn parse_member(s: &Vec<char>, pos: usize) -> (r: Option<(Family, usize)>)
    requires
        pos <= s.len(),
    ensures
        family_agrees(r, member_at(s@, pos as int)),
        r matches Some((_, p)) ==> pos < p <= s.len(),
{
    match parse_builtin(s, skip_whitespace(s, pos)) {
        Some((f, q)) => Some((f, skip_whitespace(s, q))),
        None => None,
    }
}

fn parse_mixture(s: &Vec<char>, pos: usize) -> (r: Option<(Family, usize)>)
    requires
        pos <= s.len(),
    ensures
        family_agrees(r, mixture_at(s@, pos as int)),
        r matches Some((_, p)) ==> pos < p <= s.len(),
{
    match eat(s, pos, "mixture") {
        None => None,
        Some(at0) => {
            if !eat_char(s, at0, '(') {
                return None;
            }
            match parse_member(s, at0 + 1) {
                None => None,
                Some((head, start)) => {
                    let ghost first = head@;
                    let mut members: Vec<Family> = Vec::new();
                    members.push(head);
                    assert(families_view(members@) =~= seq![first]);
                    let mut p = start;
                    let mut done = false;
                    while !done
                        invariant
                            pos < start <= p <= s.len(),
                            families_rest(s@, p as int, families_view(members@)) == families_rest(
                                s@,
                                start as int,
                                seq![first],
                            ),
                            done ==> families_rest(s@, p as int, families_view(members@)) == (
                                families_view(members@),
                                p as int,
                            ),
                        decreases
                                s.len() - p,
                                if done {
                                    0nat
                                } else {
                                    1nat
                                },
                    {
                        if eat_char(s, p, ',') {
                            match parse_member(s, p + 1) {
                                None => {
                                    done = true;
                                },
                                Some((f, q)) => {
                                    let ghost before = families_view(members@);
                                    members.push(f);
                                    assert(families_view(members@) =~= before.push(f@));
                                    p = q;
                                },
                            }
                        } else {
                            done = true;
                        }
                    }
                    assert(families_view(members@).len() == members@.len());
                    if members.len() >= 2 && eat_char(s, p, ')') {
                        Some((Family::Mixture(members), p + 1))
                    } else {
                        None
                    }
                },
            }
        },
    }
}

fn parse_string_item(s: &Vec<char>, pos: usize) -> (r: Option<(String, usize)>)
    requires
        pos <= s.len(),
    ensures
        crate::lex::text_agrees(r, string_item_at(s@, pos as int)),
        r matches Some((_, p)) ==> pos < p <= s.len(),
{
    match parse_string(s, skip_whitespace(s, pos)) {
        Some((t, q)) => Some((t, skip_whitespace(s, q))),
        None => None,
    }
}

fn parse_custom(s: &Vec<char>, pos: usize) -> (r: Option<(Family, usize)>)
    requires
        pos <= s.len(),
    ensures
        family_agrees(r, custom_at(s@, pos as int)),
        r matches Some((_, p)) ==> pos < p <= s.len(),
{
    match eat(s, pos, "custom_family") {
        None => None,
        Some(at0) => {
            if !eat_char(s, at0, '(') {
                return None;
            }
            match parse_string_item(s, at0 + 1) {
                None => None,
                Some((name, start)) => {
                    let mut dpars: Vec<String> = Vec::new();
                    assert(texts_view(dpars@) =~= Seq::<Text>::empty());
                    let mut p = start;
                    let mut done = false;
                    while !done
                        invariant
                            pos < start <= p <= s.len(),
                            strings_rest(s@, p as int, texts_view(dpars@)) == strings_rest(
                                s@,
                                start as int,
                                Seq::empty(),
                            ),
                            done ==> strings_rest(s@, p as int, texts_view(dpars@)) == (
                                texts_view(dpars@),
                                p as int,
                            ),
                        decreases
                                s.len() - p,
                                if done {
                                    0nat
                                } else {
                                    1nat
                                },
                    {
                        if eat_char(s, p, ',') {
                            match parse_string_item(s, p + 1) {
                                None => {
                                    done = true;
                                },
                                Some((t, q)) => {
                                    push_text(&mut dpars, t);
                                    p = q;
                                },
                            }
                        } else {
                            done = true;
                        }
                    }
                    if eat_char(s, p, ')') {
                        Some((Family::Custom { name, dpars }, p + 1))
                    } else {
                        None
                    }
                },
            }
        },
    }
}

fn parse_family(s: &Vec<char>, pos: usize) -> (r: Option<(Family, usize)>)
    requires
        pos <= s.len(),
    ensures
        family_agrees(r, family_at(s@, pos as int)),
        r matches Some((_, p)) ==> pos < p <= s.len(),
{
    if let Some((f, q)) = parse_mixture(s, pos) {
        return Some((f, q));
    }
    if let Some((f, q)) = parse_custom(s, pos) {
        return Some((f, q));
    }
    parse_builtin(s, pos)
}

fn parse_link(s: &Vec<char>, pos: usize) -> (r: Option<(Link, usize)>)
    requires
        pos <= s.len(),
    ensures
        match r {
            Some((l, p)) => link_at(s@, pos as int) == Some((l@, p as int)),
            None => link_at(s@, pos as int) is None,
        },
        r matches Some((_, p)) ==> pos < p <= s.len(),
{
    match parse_call(s, pos) {
        Some(((name, args), q)) => Some((Link::Named(name, args), q)),
        None => match parse_dotted(s, pos) {
            Some((name, q)) => {
                let none: Vec<Expr> = Vec::new();
                assert(exprs_view(none@) =~= Seq::<ExprView>::empty());
                Some((Link::Named(name, none), q))
            },
            None => None,
        },
    }
}

fn parse_link_part(s: &Vec<char>, pos: usize) -> (r: Option<(Link, usize)>)
    requires
        pos <= s.len(),
    ensures
        match r {
            Some((l, p)) => link_part_at(s@, pos as int) == Some((l@, p as int)),
            None => link_part_at(s@, pos as int) is None,
        },
        r matches Some((_, p)) ==> pos < p <= s.len(),
{
    match parse_padded_char(s, pos, ',') {
        None => None,
        Some(q) => match eat(s, q, "link") {
            None => None,
            Some(p) => match parse_padded_char(s, p, '=') {
                None => None,
                Some(q2) => parse_link(s, q2),
            },
        },
    }
}

/// The view of a read header.
pub open spec fn header_view(h: (Family, Option<Link>)) -> (FamilyView, Option<LinkView>) {
    (
        h.0@,
        match h.1 {
            Some(l) => Some(l@),
            None => None,
        },
    )
}

/// Whether a read header agrees with the grammar.
pub open spec fn header_agrees(
    r: Option<((Family, Option<Link>), usize)>,
    m: Option<((FamilyView, Option<LinkView>), int)>,
) -> bool {
    match r {
        Some((h, p)) => m == Some((header_view(h), p as int)),
        None => m is None,
    }
}

fn parse_header(s: &Vec<char>, pos: usize) -> (r: Option<((Family, Option<Link>), usize)>)
    requires
        pos <= s.len(),
    ensures
        header_agrees(r, header_at(s@, pos as int)),
        r matches Some((_, p)) ==> pos < p <= s.len(),
{
    let start = skip_whitespace(s, pos);
    match eat(s, start, "family") {
        None => None,
        Some(at0) => match parse_padded_char(s, at0, '=') {
            None => None,
            Some(p) => match parse_family(s, p) {
                None => None,
                Some((family, q)) => match parse_link_part(s, q) {
                    Some((link, q2)) => Some(((family, Some(link)), q2)),
                    None => Some(((family, None), q)),
                },
            },
        },
    }
}

fn parse_dpar(s: &Vec<char>, pos: usize) -> (r: Option<(Dpar, usize)>)
    requires
        pos <= s.len(),
    ensures
        match r {
            Some((d, p)) => dpar_at(s@, pos as int) == Some((d@, p as int)),
            None => dpar_at(s@, pos as int) is None,
        },
        r matches Some((_, p)) ==> pos < p <= s.len(),
{
    match parse_dpar_head(s, pos) {
        None => None,
        Some((name, p)) => match parse_expr(s, p) {
            Some((rhs, q)) => Some((Dpar { name, rhs }, q)),
            None => None,
        },
    }
}

fn parse_tail(s: &Vec<char>, start: usize) -> (r: ((Vec<Dpar>, Vec<Autocor>), usize))
    requires
        start <= s.len(),
    ensures
        ((dpars_view(r.0.0@), autocors_view(r.0.1@)), r.1 as int) == tail_at(
            s@,
            start as int,
            (Seq::empty(), Seq::empty()),
        ),
        start <= r.1 <= s.len(),
{
    let mut dpars: Vec<Dpar> = Vec::new();
    let mut terms: Vec<Autocor> = Vec::new();
    assert(dpars_view(dpars@) =~= Seq::<DparView>::empty());
    assert(autocors_view(terms@) =~= Seq::<AutocorView>::empty());
    let mut p = start;
    let mut done = false;
    while !done
        invariant
            start <= p <= s.len(),
            tail_at(s@, p as int, (dpars_view(dpars@), autocors_view(terms@))) == tail_at(
                s@,
                start as int,
                (Seq::empty(), Seq::empty()),
            ),
            done ==> tail_at(s@, p as int, (dpars_view(dpars@), autocors_view(terms@))) == (
                (dpars_view(dpars@), autocors_view(terms@)),
                p as int,
            ),
        decreases
                s.len() - p,
                if done {
                    0nat
                } else {
                    1nat
                },
    {
        match parse_padded_char(s, p, '+') {
            None => {
                done = true;
            },
            Some(q) => match parse_dpar(s, q) {
                Some((d, next)) => {
                    let ghost before = dpars_view(dpars@);
                    dpars.push(d);
                    assert(dpars_view(dpars@) =~= before.push(d@));
                    p = next;
                },
                None => match parse_autocor(s, q) {
                    Some((a, next)) => {
                        let ghost before = autocors_view(terms@);
                        terms.push(a);
                        assert(autocors_view(terms@) =~= before.push(a@));
                        p = next;
                    },
                    None => {
                        done = true;
                    },
                },
            },
        }
    }
    ((dpars, terms), p)
}

fn parse_trailing_header(s: &Vec<char>, pos: usize) -> (r: Option<((Family, Option<Link>), usize)>)
    requires
        pos <= s.len(),
    ensures
        header_agrees(r, trailing_header_at(s@, pos as int)),
        r matches Some((_, p)) ==> pos < p <= s.len(),
{
    match parse_padded_char(s, pos, ',') {
        Some(q) => parse_header(s, q),
        None => None,
    }
}

/// The views of an optional read header.
pub open spec fn found_header(h: Option<((Family, Option<Link>), usize)>) -> Option<
    ((FamilyView, Option<LinkView>), int),
> {
    match h {
        Some((h, p)) => Some((header_view(h), p as int)),
        None => None,
    }
}

fn parse_closing(s: &Vec<char>, pos: usize) -> (r: Option<Option<((Family, Option<Link>), usize)>>)
    requires
        pos <= s.len(),
    ensures
        match r {
            Some(trailing) => closing_at(s@, pos as int) == Some(found_header(trailing)),
            None => closing_at(s@, pos as int) is None,
        },
{
    let trailing = parse_trailing_header(s, pos);
    let end = match &trailing {
        Some((_, q)) => *q,
        None => pos,
    };
    if skip_whitespace(s, end) == s.len() {
        Some(trailing)
    } else {
        None
    }
}

/// Whether a built model agrees with a reading.
pub open spec fn model_agrees(r: Option<ModelSpec>, m: Option<crate::ast::ModelSpecView>) -> bool {
    match r {
        Some(spec) => m == Some(spec@),
        None => m is None,
    }
}

fn choose_header(
    leading: Option<((Family, Option<Link>), usize)>,
    trailing: Option<((Family, Option<Link>), usize)>,
) -> (r: Option<(Family, Option<Link>)>)
    ensures
        match r {
            Some(h) => Some(header_view(h)),
            None => None,
        } == chosen_header(found_header(leading), found_header(trailing)),
{
    match trailing {
        Some((h, _)) => Some(h),
        None => match leading {
            Some((h, _)) => Some(h),
            None => None,
        },
    }
}

fn build_model(
    header: Option<(Family, Option<Link>)>,
    lhs: Response,
    aterms: Vec<Aterm>,
    rhs: Expr,
    dpars: Vec<Dpar>,
    autocor: Vec<Autocor>,
) -> (r: ModelSpec)
    ensures
        r@ == model_of(
            match header {
                Some(h) => Some(header_view(h)),
                None => None,
            },
            lhs@,
            aterms_view(aterms@),
            rhs@,
            dpars_view(dpars@),
            autocors_view(autocor@),
        ),
{
    let (family, link) = match header {
        Some((f, l)) => (Some(f), l),
        None => (None, None),
    };
    ModelSpec { family, link, formula: Formula { lhs, rhs, aterms }, dpars, autocor }
}

fn leading_header(s: &Vec<char>) -> (r: (Option<((Family, Option<Link>), usize)>, usize))
    ensures
        header_agrees(r.0, header_at(s@, 0)),
        r.1 as int == crate::formula::behind(header_at(s@, 0)),
        r.1 <= s.len(),
{
    match parse_header(s, 0) {
        Some((h, p)) => (Some((h, p)), p),
        None => (None, 0),
    }
}

fn parse_full(s: &Vec<char>) -> (r: Option<ModelSpec>)
    ensures
        model_agrees(r, full_form(s@)),
{
    let (leading, at0) = leading_header(s);
    match parse_response(s, at0) {
        None => None,
        Some(((lhs, aterms), at1)) => {
            if !eat_char(s, at1, '~') {
                return None;
            }
            match parse_expr(s, at1 + 1) {
                None => None,
                Some((rhs, at3)) => {
                    let ((dpars, autocor), at4) = parse_tail(s, at3);
                    match parse_closing(s, at4) {
                        None => None,
                        Some(trailing) => {
                            let header = choose_header(leading, trailing);
                            Some(build_model(header, lhs, aterms, rhs, dpars, autocor))
                        },
                    }
                },
            }
        },
    }
}

fn parse_rhs_only(s: &Vec<char>) -> (r: Option<ModelSpec>)
    ensures
        model_agrees(r, rhs_only_form(s@)),
{
    let (leading, at0) = leading_header(s);
    match parse_expr(s, at0) {
        None => None,
        Some((rhs, p)) => match parse_closing(s, p) {
            None => None,
            Some(trailing) => {
                let header = choose_header(leading, trailing);
                let aterms: Vec<Aterm> = Vec::new();
                let dpars: Vec<Dpar> = Vec::new();
                let autocor: Vec<Autocor> = Vec::new();
                assert(aterms_view(aterms@) =~= Seq::<AtermView>::empty());
                assert(dpars_view(dpars@) =~= Seq::<DparView>::empty());
                assert(autocors_view(autocor@) =~= Seq::<AutocorView>::empty());
                let lhs = Response::Var(String::new());
                Some(build_model(header, lhs, aterms, rhs, dpars, autocor))
            },
        },
    }
}

/// What the parser says of a text that is no formula.
pub open spec fn no_formula() -> Seq<char> {
    "the text has none of the forms of a formula"@
}

/// A parser of formulas.
#[derive(Debug, Clone, Copy)]
pub struct FormulaParser {}

/// The parser of formulas.
pub fn parser() -> (r: FormulaParser) {
    FormulaParser {  }
}

impl FormulaParser {
    /// Reads a formula. The result is the model that the grammar gives the
    /// text, and an error exactly where the text has neither form of a
    /// formula. Every list of named arguments of the model holds each name
    /// once.
    pub fn parse(&self, input: &str) -> (r: Result<ModelSpec, ParseError>)
        ensures
            match r {
                Ok(spec) => model_at(input@) == Some(spec@) && well_named_model(spec@),
                Err(e) => model_at(input@) is None && e->Generic_0@ == no_formula(),
            },
    {
        proof {
            model_read_is_well_named(input@);
        }
        let s = chars_of(input);
        if let Some(spec) = parse_full(&s) {
            return Ok(spec);
        }
        match parse_rhs_only(&s) {
            Some(spec) => Ok(spec),
            None => Err(
                ParseError::Generic(String::from_str("the text has none of the forms of a formula")),
            ),
        }
    }
}

} // verus!
