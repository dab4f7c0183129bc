//! Named arguments hold each name once: what that means for a list, for an
//! expression and for a model, and why what is read from a text has it.

use crate::ast::{AutocorView, ExprView, GroupSpecView, SmoothKind, Text};
use crate::flat::{interaction_result, sum_result};
use crate::grammar::{
    args_at, args_rest, atom_at, autocor_at, bare_atom_at, call_at, exponent_at, expr_at,
    group_spec_at, group_tail_at, group_term_at, identity_at, inter_at, inter_rest, first_of,
    key_index, named_arg_at, named_args_at, named_args_rest, named_put, negated, nest_at,
    nest_op_at, nest_rest, padded_char_at, paren_at, pow_at, prod_at, prod_rest, smooth_at,
    smooth_form, sum_at, sum_rest, tail_starts,
};
use crate::hoist::{
    hoist, hoist_first, hoist_group_spec, hoist_named, is_autocor_name, positional, without_ones,
};
use crate::lex::{dotted_at, has, ident_at, skip_space, within};
use crate::stable::{lemma_hoist_first_parts, lemma_hoist_named_parts, lemma_without_ones_parts};
use crate::text::decimal;
use vstd::prelude::*;

verus! {

/// Whether no name stands twice in a list of named arguments.
pub open spec fn names_once(args: Seq<(Text, ExprView)>) -> bool {
    forall|i: int, j: int| 0 <= i < j < args.len() ==> (#[trigger] args[i]).0 != (#[trigger] args[j]).0
}

/// Whether every list of named arguments in an expression holds each name
/// once.
pub open spec fn well_named(e: ExprView) -> bool
    decreases e,
{
    match e {
        ExprView::Sum(ts) => all_well_named(ts),
        ExprView::Prod(ts) => all_well_named(ts),
        ExprView::Interaction(ts) => all_well_named(ts),
        ExprView::Nest { outer, inner, kind } => well_named(*outer) && well_named(*inner),
        ExprView::Pow { base, exp } => well_named(*base) && well_named(*exp),
        ExprView::Group { inner, spec, kind, id } => well_named(*inner) && well_named_spec(spec),
        ExprView::Smooth { kind, vars, args } => well_named_args(args),
        ExprView::Func { name, args } => all_well_named(args),
        ExprView::Identity(inner) => well_named(*inner),
        _ => true,
    }
}

/// Whether every expression of a list is well named.
pub open spec fn all_well_named(ts: Seq<ExprView>) -> bool
    decreases ts,
{
    forall|i: int| 0 <= i < ts.len() ==> well_named(#[trigger] ts[i])
}

/// Whether a list of named arguments holds each name once, and so does every
/// list in its values.
pub open spec fn well_named_args(args: Seq<(Text, ExprView)>) -> bool
    decreases args,
{
    names_once(args) && forall|i: int| 0 <= i < args.len() ==> well_named((#[trigger] args[i]).1)
}

/// Whether the arguments of a grouping that is a call are well named.
pub open spec fn well_named_spec(g: GroupSpecView) -> bool
    decreases g,
{
    match g {
        GroupSpecView::Func { name, args } => all_well_named(args),
        _ => true,
    }
}

/// Where the search for a name ends: at an argument of that name, or behind
/// arguments of other names.
pub proof fn lemma_key_index(args: Seq<(Text, ExprView)>, key: Text, from: int)
    requires
        0 <= from <= args.len(),
    ensures
        ({
            let i = key_index(args, key, from);
            if i == -1 {
                forall|j: int| from <= j < args.len() ==> (#[trigger] args[j]).0 != key
            } else {
                from <= i < args.len() && args[i].0 == key
            }
        }),
    decreases args.len() - from,
{
    if from < args.len() && args[from].0 != key {
        lemma_key_index(args, key, from + 1);
    }
}

/// Setting a name keeps each name once.
pub proof fn lemma_put_keeps_names_once(args: Seq<(Text, ExprView)>, key: Text, value: ExprView)
    requires
        well_named_args(args),
        well_named(value),
    ensures
        well_named_args(named_put(args, key, value)),
{
    lemma_key_index(args, key, 0);
    let i = key_index(args, key, 0);
    let out = named_put(args, key, value);
    if 0 <= i < args.len() {
        assert forall|a: int, b: int| 0 <= a < b < out.len() implies (#[trigger] out[a]).0 != (
        #[trigger] out[b]).0 by {
            assert(out[a].0 == args[a].0);
            assert(out[b].0 == args[b].0);
        }
        assert forall|a: int| 0 <= a < out.len() implies well_named((#[trigger] out[a]).1) by {
            if a != i {
                assert(out[a] == args[a]);
            }
        }
    } else {
        assert forall|a: int, b: int| 0 <= a < b < out.len() implies (#[trigger] out[a]).0 != (
        #[trigger] out[b]).0 by {
            if b < args.len() {
                assert(out[a] == args[a]);
                assert(out[b] == args[b]);
            } else {
                assert(out[a] == args[a]);
            }
        }
        assert forall|a: int| 0 <= a < out.len() implies well_named((#[trigger] out[a]).1) by {
            if a < args.len() {
                assert(out[a] == args[a]);
            }
        }
    }
}

/// Whether what was read, if anything, is well named.
pub open spec fn good(r: Option<(ExprView, int)>) -> bool {
    r matches Some(x) ==> well_named(x.0)
}

proof fn lemma_expr(s: Seq<char>, pos: int)
    ensures
        good(expr_at(s, pos)),
    decreases s.len() - pos, 20nat,
{
    let p = skip_space(s, pos);
    if within(s, pos, p) {
        lemma_sum(s, p);
    }
}

proof fn lemma_sum(s: Seq<char>, pos: int)
    ensures
        good(sum_at(s, pos)),
    decreases s.len() - pos, 19nat,
{
    match prod_at(s, pos) {
        Some((head, p)) => {
            lemma_prod(s, pos);
            if within(s, pos, p) {
                lemma_sum_rest(s, p, seq![head]);
            }
        },
        None => {},
    }
}

proof fn lemma_sum_rest(s: Seq<char>, pos: int, acc: Seq<ExprView>)
    requires
        all_well_named(acc),
    ensures
        all_well_named(sum_rest(s, pos, acc).0),
    decreases s.len() - pos, 18nat,
{
    let q0 = skip_space(s, pos);
    if within(s, pos, q0) && (has(s, q0, '+') || has(s, q0, '-')) {
        let q1 = skip_space(s, q0 + 1);
        if within(s, q0 + 1, q1) && !(s[q0] == '+' && tail_starts(s, q1)) {
            match prod_at(s, q1) {
                Some((t, q2)) => {
                    lemma_prod(s, q1);
                    if within(s, q1, q2) {
                        let term = if s[q0] == '-' {
                            negated(t)
                        } else {
                            t
                        };
                        assert(all_well_named(seq![t]));
                        assert(well_named(term));
                        lemma_sum_rest(s, q2, acc.push(term));
                    }
                },
                None => {},
            }
        }
    }
}

proof fn lemma_prod(s: Seq<char>, pos: int)
    ensures
        good(prod_at(s, pos)),
    decreases s.len() - pos, 17nat,
{
    match nest_at(s, pos) {
        Some((head, p)) => {
            lemma_nest(s, pos);
            if within(s, pos, p) {
                lemma_prod_rest(s, p, seq![head]);
            }
        },
        None => {},
    }
}

proof fn lemma_prod_rest(s: Seq<char>, pos: int, acc: Seq<ExprView>)
    requires
        all_well_named(acc),
    ensures
        all_well_named(prod_rest(s, pos, acc).0),
    decreases s.len() - pos, 16nat,
{
    if has(s, pos, '*') {
        match nest_at(s, pos + 1) {
            Some((t, q)) => {
                lemma_nest(s, pos + 1);
                if within(s, pos + 1, q) {
                    lemma_prod_rest(s, q, acc.push(t));
                }
            },
            None => {},
        }
    }
}

proof fn lemma_nest(s: Seq<char>, pos: int)
    ensures
        good(nest_at(s, pos)),
    decreases s.len() - pos, 15nat,
{
    match inter_at(s, pos) {
        Some((head, p)) => {
            lemma_inter(s, pos);
            if within(s, pos, p) {
                lemma_nest_rest(s, p, head);
            }
        },
        None => {},
    }
}

proof fn lemma_nest_rest(s: Seq<char>, pos: int, acc: ExprView)
    requires
        well_named(acc),
    ensures
        well_named(nest_rest(s, pos, acc).0),
    decreases s.len() - pos, 14nat,
{
    match nest_op_at(s, pos) {
        Some((kind, q)) => {
            if pos < q <= s.len() {
                match inter_at(s, q) {
                    Some((t, q2)) => {
                        lemma_inter(s, q);
                        if within(s, q, q2) {
                            lemma_nest_rest(
                                s,
                                q2,
                                ExprView::Nest { outer: Box::new(acc), inner: Box::new(t), kind },
                            );
                        }
                    },
                    None => {},
                }
            }
        },
        None => {},
    }
}

proof fn lemma_inter(s: Seq<char>, pos: int)
    ensures
        good(inter_at(s, pos)),
    decreases s.len() - pos, 13nat,
{
    match pow_at(s, pos) {
        Some((head, p)) => {
            lemma_pow(s, pos);
            if within(s, pos, p) {
                lemma_inter_rest(s, p, seq![head]);
            }
        },
        None => {},
    }
}

proof fn lemma_inter_rest(s: Seq<char>, pos: int, acc: Seq<ExprView>)
    requires
        all_well_named(acc),
    ensures
        all_well_named(inter_rest(s, pos, acc).0),
    decreases s.len() - pos, 12nat,
{
    if has(s, pos, ':') {
        match pow_at(s, pos + 1) {
            Some((t, q)) => {
                lemma_pow(s, pos + 1);
                if within(s, pos + 1, q) {
                    lemma_inter_rest(s, q, acc.push(t));
                }
            },
            None => {},
        }
    }
}

proof fn lemma_pow(s: Seq<char>, pos: int)
    ensures
        good(pow_at(s, pos)),
    decreases s.len() - pos, 11nat,
{
    match atom_at(s, pos) {
        Some((base, p)) => {
            lemma_atom(s, pos);
            if within(s, pos, p) && has(s, p, '^') {
                lemma_exponent(s, p + 1);
            }
        },
        None => {},
    }
}

proof fn lemma_exponent(s: Seq<char>, pos: int)
    ensures
        good(exponent_at(s, pos)),
    decreases s.len() - pos, 7nat,
{
    let p = skip_space(s, pos);
    if within(s, pos, p) {
        lemma_paren(s, p);
    }
}

proof fn lemma_atom(s: Seq<char>, pos: int)
    ensures
        good(atom_at(s, pos)),
    decreases s.len() - pos, 10nat,
{
    let p = skip_space(s, pos);
    if within(s, pos, p) {
        lemma_bare_atom(s, p);
    }
}

#[verifier::rlimit(40)]
proof fn lemma_bare_atom(s: Seq<char>, pos: int)
    ensures
        good(bare_atom_at(s, pos)),
    decreases s.len() - pos, 9nat,
{
    lemma_smooth(s, pos);
    lemma_group_term(s, pos);
    lemma_call(s, pos);
    lemma_paren(s, pos);
    lemma_identity(s, pos);
    let last = first_of(crate::grammar::dot_at(s, pos), identity_at(s, pos));
    assert(good(last));
    let fourth = first_of(
        crate::grammar::func_atom(call_at(s, pos)),
        first_of(crate::grammar::var_atom(ident_at(s, pos)), first_of(paren_at(s, pos), last)),
    );
    assert(good(fourth));
    let third = first_of(smooth_at(s, pos), first_of(group_term_at(s, pos), fourth));
    assert(good(third));
}

proof fn lemma_paren(s: Seq<char>, pos: int)
    ensures
        good(paren_at(s, pos)),
    decreases s.len() - pos, 5nat,
{
    if has(s, pos, '(') {
        lemma_expr(s, pos + 1);
    }
}

proof fn lemma_identity(s: Seq<char>, pos: int)
    ensures
        good(identity_at(s, pos)),
    decreases s.len() - pos, 6nat,
{
    if has(s, pos, 'I') {
        lemma_paren(s, pos + 1);
    }
}

proof fn lemma_call(s: Seq<char>, pos: int)
    ensures
        call_at(s, pos) matches Some(r) ==> all_well_named(r.0.1),
    decreases s.len() - pos, 6nat,
{
    match dotted_at(s, pos) {
        Some((name, p)) => {
            if pos < p && has(s, p, '(') {
                lemma_args(s, p + 1);
            }
        },
        None => {},
    }
}

proof fn lemma_args(s: Seq<char>, pos: int)
    ensures
        all_well_named(args_at(s, pos).0),
    decreases s.len() - pos, 22nat,
{
    match expr_at(s, pos) {
        Some((e, p)) => {
            lemma_expr(s, pos);
            if within(s, pos, p) {
                lemma_args_rest(s, p, seq![e]);
            }
        },
        None => {},
    }
}

proof fn lemma_args_rest(s: Seq<char>, pos: int, acc: Seq<ExprView>)
    requires
        all_well_named(acc),
    ensures
        all_well_named(args_rest(s, pos, acc).0),
    decreases s.len() - pos, 21nat,
{
    if has(s, pos, ',') {
        match expr_at(s, pos + 1) {
            Some((e, q)) => {
                lemma_expr(s, pos + 1);
                if within(s, pos + 1, q) {
                    lemma_args_rest(s, q, acc.push(e));
                }
            },
            None => {},
        }
    }
}

proof fn lemma_named_arg(s: Seq<char>, pos: int)
    ensures
        named_arg_at(s, pos) matches Some(r) ==> well_named(r.0.1),
    decreases s.len() - pos, 23nat,
{
    let start = skip_space(s, pos);
    match ident_at(s, start) {
        Some((key, p)) => {
            if within(s, pos, start) && start < p <= s.len() {
                match padded_char_at(s, p, '=') {
                    Some(q) => {
                        if within(s, p, q) {
                            lemma_expr(s, q);
                        }
                    },
                    None => {},
                }
            }
        },
        None => {},
    }
}

proof fn lemma_named_args_rest(s: Seq<char>, pos: int, acc: Seq<(Text, ExprView)>)
    requires
        well_named_args(acc),
    ensures
        well_named_args(named_args_rest(s, pos, acc).0),
    decreases s.len() - pos, 24nat,
{
    if has(s, pos, ',') {
        match named_arg_at(s, pos + 1) {
            Some(((key, value), q)) => {
                lemma_named_arg(s, pos + 1);
                if within(s, pos + 1, q) {
                    lemma_put_keeps_names_once(acc, key, value);
                    lemma_named_args_rest(s, q, named_put(acc, key, value));
                }
            },
            None => {},
        }
    }
}

proof fn lemma_named_args(s: Seq<char>, pos: int)
    ensures
        well_named_args(named_args_at(s, pos).0),
    decreases s.len() - pos, 25nat,
{
    match named_arg_at(s, pos) {
        Some(((key, value), p)) => {
            lemma_named_arg(s, pos);
            if within(s, pos, p) {
                lemma_put_keeps_names_once(Seq::empty(), key, value);
                lemma_named_args_rest(s, p, named_put(Seq::empty(), key, value));
            }
        },
        None => {},
    }
}

proof fn lemma_smooth_form(s: Seq<char>, pos: int, kind: SmoothKind)
    ensures
        good(smooth_form(s, pos, kind)),
    decreases s.len() - pos, 7nat,
{
    let word = crate::pretty::smooth_kind_text(kind);
    if crate::lex::eats(s, pos, word) && has(s, pos + word.len(), '(') {
        match crate::grammar::names_at(s, pos + word.len() + 1) {
            Some((vars, p)) => {
                if pos < p <= s.len() && has(s, p, ',') {
                    lemma_named_args(s, p + 1);
                    let r = named_args_at(s, p + 1);
                    assert(well_named(ExprView::Smooth { kind, vars, args: r.0 }));
                }
                assert(well_named_args(Seq::<(Text, ExprView)>::empty()));
                assert(well_named(
                    ExprView::Smooth { kind, vars, args: Seq::<(Text, ExprView)>::empty() },
                ));
            },
            None => {},
        }
    }
}

proof fn lemma_smooth(s: Seq<char>, pos: int)
    ensures
        good(smooth_at(s, pos)),
    decreases s.len() - pos, 8nat,
{
    lemma_smooth_form(s, pos, SmoothKind::S);
    lemma_smooth_form(s, pos, SmoothKind::T2);
    lemma_smooth_form(s, pos, SmoothKind::TE);
    lemma_smooth_form(s, pos, SmoothKind::TI);
}

proof fn lemma_group_spec(s: Seq<char>, pos: int)
    ensures
        group_spec_at(s, pos) matches Some(r) ==> well_named_spec(r.0),
    decreases s.len() - pos, 23nat,
{
    lemma_call(s, pos);
}

proof fn lemma_group_tail(s: Seq<char>, pos: int, inner: ExprView)
    requires
        well_named(inner),
    ensures
        good(group_tail_at(s, pos, inner)),
    decreases s.len() - pos, 24nat,
{
    if has(s, pos, '|') {
        let q = skip_space(s, pos + 1);
        if within(s, pos + 1, q) {
            lemma_group_spec(s, q);
        }
    } else {
        lemma_group_spec(s, pos);
        match group_spec_at(s, pos) {
            Some((first, p)) => {
                if within(s, pos, p) && has(s, p, '|') {
                    let q = skip_space(s, p + 1);
                    if within(s, p + 1, q) {
                        lemma_group_spec(s, q);
                    }
                }
            },
            None => {},
        }
    }
}

proof fn lemma_group_term(s: Seq<char>, pos: int)
    ensures
        good(group_term_at(s, pos)),
    decreases s.len() - pos, 8nat,
{
    if has(s, pos, '(') {
        match expr_at(s, pos + 1) {
            Some((inner, p)) => {
                lemma_expr(s, pos + 1);
                if within(s, pos + 1, p) && has(s, p, '|') {
                    let q = skip_space(s, p + 1);
                    if within(s, p + 1, q) {
                        lemma_group_tail(s, q, inner);
                    }
                }
            },
            None => {},
        }
    }
}

/// Every expression that is read from a text holds each name once in each of
/// its lists of named arguments.
pub proof fn expression_read_is_well_named(s: Seq<char>, pos: int)
    ensures
        expr_at(s, pos) matches Some(r) ==> well_named(r.0),
{
    lemma_expr(s, pos);
}

/// The arguments of a call that is read from a text are well named.
pub proof fn arguments_read_are_well_named(s: Seq<char>, pos: int)
    ensures
        all_well_named(args_at(s, pos).0),
        call_at(s, pos) matches Some(r) ==> all_well_named(r.0.1),
{
    lemma_args(s, pos);
    lemma_call(s, pos);
}

/// The named arguments of an autocorrelation term that is read from a text
/// hold each name once.
pub proof fn autocor_read_is_well_named(s: Seq<char>, pos: int)
    ensures
        autocor_at(s, pos) matches Some(r) ==> well_named_args(r.0.args),
{
    lemma_named_args(s, pos + "ar"@.len() + 1);
    lemma_named_args(s, pos + "ma"@.len() + 1);
    lemma_named_args(s, pos + "arma"@.len() + 1);
    lemma_named_args(s, pos + "cosy"@.len() + 1);
    lemma_named_args(s, pos + "unstr"@.len() + 1);
    lemma_named_args(s, pos + "sar"@.len() + 1);
    lemma_named_args(s, pos + "car"@.len() + 1);
    lemma_named_args(s, pos + "fcor"@.len() + 1);
}

// ---------------------------------------------------------------------------
// Hoisting
// ---------------------------------------------------------------------------

/// Whether the named arguments of every autocorrelation term of a list are
/// well named.
pub open spec fn well_named_terms(a: Seq<AutocorView>) -> bool {
    forall|i: int| 0 <= i < a.len() ==> well_named_args((#[trigger] a[i]).args)
}

proof fn lemma_decimal_len(n: nat)
    ensures
        decimal(n).len() >= 1,
        n >= 10 ==> decimal(n).len() >= 2,
    decreases n,
{
    if n >= 10 {
        lemma_decimal_len(n / 10);
    }
}

proof fn lemma_digit_one_to_one(x: nat, y: nat)
    requires
        x < 10,
        y < 10,
        crate::text::digit_char(x) == crate::text::digit_char(y),
    ensures
        x == y,
{
    assert(crate::text::digit_char(x) as int == 48 + x);
    assert(crate::text::digit_char(y) as int == 48 + y);
}

/// Two numbers with one numeral are one number.
pub proof fn lemma_decimal_one_to_one(a: nat, b: nat)
    requires
        decimal(a) == decimal(b),
    ensures
        a == b,
    decreases a,
{
    lemma_decimal_len(a);
    lemma_decimal_len(b);
    if a < 10 {
        assert(b < 10);
        assert(decimal(a)[0] == crate::text::digit_char(a));
        assert(decimal(b)[0] == crate::text::digit_char(b));
        lemma_digit_one_to_one(a, b);
    } else {
        assert(b >= 10);
        let x = decimal(a / 10);
        let y = decimal(b / 10);
        assert(x.push(crate::text::digit_char(a % 10)).drop_last() =~= x);
        assert(y.push(crate::text::digit_char(b % 10)).drop_last() =~= y);
        assert(x.push(crate::text::digit_char(a % 10)).last() == crate::text::digit_char(a % 10));
        assert(y.push(crate::text::digit_char(b % 10)).last() == crate::text::digit_char(b % 10));
        lemma_digit_one_to_one(a % 10, b % 10);
        lemma_decimal_one_to_one(a / 10, b / 10);
    }
}

/// Positional arguments under the names `arg0`, `arg1`, .. hold each name
/// once.
pub proof fn lemma_positional_is_well_named(args: Seq<ExprView>)
    requires
        all_well_named(args),
    ensures
        well_named_args(positional(args)),
{
    let out = positional(args);
    assert forall|i: int, j: int| 0 <= i < j < out.len() implies (#[trigger] out[i]).0 != (
    #[trigger] out[j]).0 by {
        let a = "arg"@ + decimal(i as nat);
        let b = "arg"@ + decimal(j as nat);
        if a == b {
            let k = "arg"@.len() as int;
            assert(a.subrange(k, a.len() as int) =~= decimal(i as nat));
            assert(b.subrange(k, b.len() as int) =~= decimal(j as nat));
            lemma_decimal_one_to_one(i as nat, j as nat);
        }
    }
    assert forall|i: int| 0 <= i < out.len() implies well_named((#[trigger] out[i]).1) by {
        assert(well_named(args[i]));
    }
}

proof fn lemma_hoist_first_terms(ts: Seq<ExprView>, n: nat)
    requires
        n <= ts.len(),
        forall|i: int| 0 <= i < n ==> well_named_terms(#[trigger] hoist(ts[i]).1),
    ensures
        well_named_terms(hoist_first(ts, n).1),
    decreases n,
{
    if n > 0 {
        lemma_hoist_first_terms(ts, (n - 1) as nat);
        let init = hoist_first(ts, (n - 1) as nat);
        let last = hoist(ts[n - 1]);
        assert(well_named_terms(last.1));
        assert(hoist_first(ts, n).1 == init.1 + last.1);
    }
}

proof fn lemma_hoist_named_terms(args: Seq<(Text, ExprView)>, n: nat)
    requires
        n <= args.len(),
        forall|i: int| 0 <= i < n ==> well_named_terms(#[trigger] hoist(args[i].1).1),
    ensures
        well_named_terms(hoist_named(args, n).1),
    decreases n,
{
    if n > 0 {
        lemma_hoist_named_terms(args, (n - 1) as nat);
        let init = hoist_named(args, (n - 1) as nat);
        let last = hoist(args[n - 1].1);
        assert(well_named_terms(last.1));
        assert(hoist_named(args, n).1 == init.1 + last.1);
    }
}

/// Hoisting keeps each name once: in what it leaves, and in the terms that it
/// takes out.
pub proof fn lemma_hoist_keeps_names(e: ExprView)
    requires
        well_named(e),
    ensures
        well_named(hoist(e).0),
        well_named_terms(hoist(e).1),
    decreases e, 1nat,
{
    match e {
        ExprView::Func { name, args } => {
            assert(all_well_named(args));
            if is_autocor_name(name) {
                lemma_positional_is_well_named(args);
            } else {
                lemma_hoist_list_keeps_names(args);
            }
        },
        ExprView::Sum(ts) => {
            assert(all_well_named(ts));
            lemma_hoist_list_keeps_names(ts);
            let r = hoist_first(ts, ts.len());
            let w = without_ones(r.0);
            lemma_without_ones_parts(r.0);
            assert forall|j: int| 0 <= j < w.len() implies well_named(#[trigger] w[j]) by {
                let i = choose|i: int| 0 <= i < r.0.len() && r.0[i] == w[j];
                assert(well_named(r.0[i]));
            }
            assert(all_well_named(w));
            if w.len() == 1 {
                assert(well_named(w[0]));
            }
            assert(well_named(sum_result(w)));
        },
        ExprView::Interaction(ts) => {
            assert(all_well_named(ts));
            lemma_hoist_list_keeps_names(ts);
            let r = hoist_first(ts, ts.len());
            if r.0.len() == 1 {
                assert(well_named(r.0[0]));
            }
            assert(well_named(interaction_result(r.0)));
        },
        ExprView::Prod(ts) => {
            assert(all_well_named(ts));
            lemma_hoist_list_keeps_names(ts);
        },
        ExprView::Nest { outer, inner, kind } => {
            lemma_hoist_keeps_names(*outer);
            lemma_hoist_keeps_names(*inner);
        },
        ExprView::Pow { base, exp } => {
            lemma_hoist_keeps_names(*base);
            lemma_hoist_keeps_names(*exp);
        },
        ExprView::Group { inner, spec, kind, id } => {
            lemma_hoist_keeps_names(*inner);
            let b = hoist_group_spec(spec);
            assert(well_named_spec(spec));
            match spec {
                GroupSpecView::Func { name, args } => {
                    assert(all_well_named(args));
                    lemma_hoist_list_keeps_names(args);
                    assert(b.0 == GroupSpecView::Func {
                        name,
                        args: hoist_first(args, args.len()).0,
                    });
                },
                _ => {
                    assert(b.0 == spec);
                    assert(b.1 =~= Seq::<AutocorView>::empty());
                },
            }
            assert(well_named_spec(b.0));
            assert(well_named_terms(b.1));
        },
        ExprView::Smooth { kind, vars, args } => {
            assert(well_named_args(args));
            assert(names_once(args));
            lemma_hoist_named_parts(args, args.len());
            let r = hoist_named(args, args.len());
            assert forall|i: int| 0 <= i < args.len() implies well_named(
                hoist(args[i].1).0,
            ) && well_named_terms(#[trigger] hoist(args[i].1).1) by {
                assert(well_named(args[i].1));
                lemma_hoist_keeps_names(args[i].1);
            }
            lemma_hoist_named_terms(args, args.len());
            assert forall|i: int, j: int| 0 <= i < j < r.0.len() implies (#[trigger] r.0[i]).0 != (
            #[trigger] r.0[j]).0 by {
                assert(r.0[i].0 == args[i].0);
                assert(r.0[j].0 == args[j].0);
            }
            assert forall|i: int| 0 <= i < r.0.len() implies well_named((#[trigger] r.0[i]).1) by {
                assert(r.0[i].1 == hoist(args[i].1).0);
                assert(well_named_terms(hoist(args[i].1).1));
            }
            assert(well_named_args(r.0));
        },
        ExprView::Identity(inner) => {
            lemma_hoist_keeps_names(*inner);
        },
        _ => {},
    }
}

proof fn lemma_hoist_list_keeps_names(ts: Seq<ExprView>)
    requires
        all_well_named(ts),
    ensures
        all_well_named(hoist_first(ts, ts.len()).0),
        well_named_terms(hoist_first(ts, ts.len()).1),
    decreases ts, 0nat,
{
    lemma_hoist_first_parts(ts, ts.len());
    let r = hoist_first(ts, ts.len());
    assert forall|i: int| 0 <= i < ts.len() implies well_named(hoist(ts[i]).0)
        && well_named_terms(#[trigger] hoist(ts[i]).1) by {
        assert(well_named(ts[i]));
        lemma_hoist_keeps_names(ts[i]);
    }
    lemma_hoist_first_terms(ts, ts.len());
    assert forall|i: int| 0 <= i < r.0.len() implies well_named(#[trigger] r.0[i]) by {
        assert(well_named_terms(hoist(ts[i]).1));
    }
}

} // verus!
