//! Taking autocorrelation calls out of an expression.

use crate::ast::{
    autocors_view, copy_expr, copy_group_spec, copy_option_text, copy_texts, exprs_view, is_text,
    named_view, push_expr, push_named, Autocor, AutocorView, Expr, ExprView, GroupSpec,
    GroupSpecView, Text,
};
use crate::flat::{
    flatten_interaction_result, flatten_sum_result, interaction_result, sum_result,
};
use crate::text::{decimal, decimal_string};
use vstd::prelude::*;

verus! {

/// Whether a function name is that of an autocorrelation structure.
pub open spec fn is_autocor_name(name: Text) -> bool {
    name == "ar"@ || name == "ma"@ || name == "arma"@ || name == "cosy"@ || name == "unstr"@
        || name == "sar"@ || name == "car"@ || name == "fcor"@
}

/// Positional arguments under the names `arg0`, `arg1`, ..
pub open spec fn positional(args: Seq<ExprView>) -> Seq<(Text, ExprView)> {
    Seq::new(args.len(), |i: int| ("arg"@ + decimal(i as nat), args[i]))
}

/// The terms of a list but the intercepts `1`.
pub open spec fn without_ones(ts: Seq<ExprView>) -> Seq<ExprView>
    decreases ts.len(),
{
    if ts.len() == 0 {
        Seq::empty()
    } else {
        let init = without_ones(ts.drop_last());
        if ts.last() == ExprView::Intercept(true) {
            init
        } else {
            init.push(ts.last())
        }
    }
}

/// An expression with its autocorrelation calls taken out, and the calls in
/// the order in which they stood. Each call leaves `1` behind, and a sum
/// loses every term `1`.
pub open spec fn hoist(e: ExprView) -> (ExprView, Seq<AutocorView>)
    decreases e, 0nat,
{
    match e {
        ExprView::Func { name, args } => {
            if is_autocor_name(name) {
                (
                    ExprView::Intercept(true),
                    seq![AutocorView { name, args: positional(args) }],
                )
            } else {
                let r = hoist_first(args, args.len());
                (ExprView::Func { name, args: r.0 }, r.1)
            }
        },
        ExprView::Sum(ts) => {
            let r = hoist_first(ts, ts.len());
            (sum_result(without_ones(r.0)), r.1)
        },
        ExprView::Interaction(ts) => {
            let r = hoist_first(ts, ts.len());
            (interaction_result(r.0), r.1)
        },
        ExprView::Prod(ts) => {
            let r = hoist_first(ts, ts.len());
            (ExprView::Prod(r.0), r.1)
        },
        ExprView::Nest { outer, inner, kind } => {
            let a = hoist(*outer);
            let b = hoist(*inner);
            (ExprView::Nest { outer: Box::new(a.0), inner: Box::new(b.0), kind }, a.1 + b.1)
        },
        ExprView::Pow { base, exp } => {
            let a = hoist(*base);
            let b = hoist(*exp);
            (ExprView::Pow { base: Box::new(a.0), exp: Box::new(b.0) }, a.1 + b.1)
        },
        ExprView::Group { inner, spec, kind, id } => {
            let a = hoist(*inner);
            let b = hoist_group_spec(spec);
            (ExprView::Group { inner: Box::new(a.0), spec: b.0, kind, id }, a.1 + b.1)
        },
        ExprView::Smooth { kind, vars, args } => {
            let r = hoist_named(args, args.len());
            (ExprView::Smooth { kind, vars, args: r.0 }, r.1)
        },
        ExprView::Identity(inner) => {
            let a = hoist(*inner);
            (ExprView::Identity(Box::new(a.0)), a.1)
        },
        _ => (e, Seq::empty()),
    }
}

/// `hoist` of the first `n` expressions of a list.
pub open spec fn hoist_first(ts: Seq<ExprView>, n: nat) -> (Seq<ExprView>, Seq<AutocorView>)
    decreases ts, n,
{
    if n == 0 || n > ts.len() {
        (Seq::empty(), Seq::empty())
    } else {
        let init = hoist_first(ts, (n - 1) as nat);
        let last = hoist(ts[n - 1]);
        (init.0.push(last.0), init.1 + last.1)
    }
}

/// `hoist` of the values of the first `n` named arguments of a list.
pub open spec fn hoist_named(args: Seq<(Text, ExprView)>, n: nat) -> (
    Seq<(Text, ExprView)>,
    Seq<AutocorView>,
)
    decreases args, n,
{
    if n == 0 || n > args.len() {
        (Seq::empty(), Seq::empty())
    } else {
        let init = hoist_named(args, (n - 1) as nat);
        let last = hoist(args[n - 1].1);
        (init.0.push((args[n - 1].0, last.0)), init.1 + last.1)
    }
}

pub open spec fn hoist_group_spec(g: GroupSpecView) -> (GroupSpecView, Seq<AutocorView>)
    decreases g, 0nat,
{
    match g {
        GroupSpecView::Func { name, args } => {
            let r = hoist_first(args, args.len());
            (GroupSpecView::Func { name, args: r.0 }, r.1)
        },
        _ => (g, Seq::empty()),
    }
}

/// Whether a function name is that of an autocorrelation structure.
pub fn is_autocor_function(name: &str) -> (r: bool)
    ensures
        r == is_autocor_name(name@),
{
    let owned = String::from_str(name);
    let name = &owned;
    is_text(name, "ar") || is_text(name, "ma") || is_text(name, "arma") || is_text(name, "cosy")
        || is_text(name, "unstr") || is_text(name, "sar") || is_text(name, "car") || is_text(
        name,
        "fcor",
    )
}

fn positional_args(args: &Vec<Expr>) -> (r: Vec<(String, Expr)>)
    ensures
        named_view(r@) == positional(exprs_view(args@)),
{
    let mut out: Vec<(String, Expr)> = Vec::new();
    let mut i: usize = 0;
    assert(named_view(out@) =~= positional(exprs_view(args@)).take(0));
    while i < args.len()
        invariant
            i <= args.len(),
            named_view(out@) == positional(exprs_view(args@)).take(i as int),
        decreases args.len() - i,
    {
        let mut name = String::from_str("arg");
        let number = decimal_string(i);
        name.append(number.as_str());
        push_named(&mut out, name, copy_expr(&args[i]));
        proof {
            let all = positional(exprs_view(args@));
            assert(all.take(i + 1) =~= all.take(i as int).push(all[i as int]));
        }
        i += 1;
    }
    assert(positional(exprs_view(args@)).take(args.len() as int) =~= positional(
        exprs_view(args@),
    ));
    out
}

fn push_autocor(hoisted: &mut Vec<Autocor>, a: Autocor)
    ensures
        autocors_view(final(hoisted)@) == autocors_view(old(hoisted)@) + seq![a@],
{
    hoisted.push(a);
    assert(autocors_view(hoisted@) =~= autocors_view(old(hoisted)@) + seq![a@]);
}

fn is_one(e: &Expr) -> (r: bool)
    ensures
        r == (e@ == ExprView::Intercept(true)),
{
    match e {
        Expr::Intercept(b) => *b,
        _ => false,
    }
}

/// Takes the autocorrelation calls out of an expression and appends them to
/// `hoisted`.
pub fn hoist_autocor_recursive(expr: &Expr, hoisted: &mut Vec<Autocor>) -> (r: Expr)
    ensures
        r@ == hoist(expr@).0,
        autocors_view(final(hoisted)@) == autocors_view(old(hoisted)@) + hoist(expr@).1,
    decreases expr,
{
    let ghost start = autocors_view(hoisted@);
    match expr {
        Expr::Func { name, args } => {
            if is_autocor_function(name.as_str()) {
                push_autocor(hoisted, Autocor { name: name.clone(), args: positional_args(args) });
                Expr::Intercept(true)
            } else {
                let rest = hoist_list(args, hoisted);
                Expr::Func { name: name.clone(), args: rest }
            }
        },
        Expr::Sum(ts) => {
            let processed = hoist_list(ts, hoisted);
            flatten_sum_result(drop_ones(&processed))
        },
        Expr::Interaction(ts) => {
            let processed = hoist_list(ts, hoisted);
            flatten_interaction_result(processed)
        },
        Expr::Prod(ts) => {
            let processed = hoist_list(ts, hoisted);
            Expr::Prod(processed)
        },
        Expr::Nest { outer, inner, kind } => {
            let a = hoist_autocor_recursive(outer, hoisted);
            let b = hoist_autocor_recursive(inner, hoisted);
            assert(autocors_view(hoisted@) =~= start + (hoist(outer@).1 + hoist(inner@).1));
            Expr::Nest { outer: Box::new(a), inner: Box::new(b), kind: *kind }
        },
        Expr::Pow { base, exp } => {
            let a = hoist_autocor_recursive(base, hoisted);
            let b = hoist_autocor_recursive(exp, hoisted);
            assert(autocors_view(hoisted@) =~= start + (hoist(base@).1 + hoist(exp@).1));
            Expr::Pow { base: Box::new(a), exp: Box::new(b) }
        },
        Expr::Group { inner, spec, kind, id } => {
            let a = hoist_autocor_recursive(inner, hoisted);
            let b = hoist_grouping(spec, hoisted);
            assert(autocors_view(hoisted@) =~= start + (hoist(inner@).1 + hoist_group_spec(
                spec@,
            ).1));
            Expr::Group { inner: Box::new(a), spec: b, kind: *kind, id: copy_option_text(id) }
        },
        Expr::Smooth { kind, vars, args } => {
            let rest = hoist_named_list(args, hoisted);
            Expr::Smooth { kind: *kind, vars: copy_texts(vars), args: rest }
        },
        Expr::Identity(inner) => {
            let a = hoist_autocor_recursive(inner, hoisted);
            Expr::Identity(Box::new(a))
        },
        other => {
            assert(autocors_view(hoisted@) =~= start + Seq::<AutocorView>::empty());
            copy_expr(other)
        },
    }
}

fn drop_ones(terms: &Vec<Expr>) -> (r: Vec<Expr>)
    ensures
        exprs_view(r@) == without_ones(exprs_view(terms@)),
{
    let mut kept: Vec<Expr> = Vec::new();
    let mut i: usize = 0;
    assert(exprs_view(kept@) =~= without_ones(exprs_view(terms@).take(0)));
    while i < terms.len()
        invariant
            i <= terms.len(),
            exprs_view(kept@) == without_ones(exprs_view(terms@).take(i as int)),
        decreases terms.len() - i,
    {
        let ghost all = exprs_view(terms@);
        proof {
            assert(all.take(i + 1).drop_last() =~= all.take(i as int));
            assert(all.take(i + 1).last() == all[i as int]);
        }
        if !is_one(&terms[i]) {
            push_expr(&mut kept, copy_expr(&terms[i]));
        }
        i += 1;
    }
    assert(exprs_view(terms@).take(terms.len() as int) =~= exprs_view(terms@));
    kept
}

fn hoist_grouping(spec: &GroupSpec, hoisted: &mut Vec<Autocor>) -> (r: GroupSpec)
    ensures
        r@ == hoist_group_spec(spec@).0,
        autocors_view(final(hoisted)@) == autocors_view(old(hoisted)@) + hoist_group_spec(
            spec@,
        ).1,
    decreases spec,
{
    match spec {
        GroupSpec::Func { name, args } => {
            let rest = hoist_list(args, hoisted);
            GroupSpec::Func { name: name.clone(), args: rest }
        },
        other => {
            assert(autocors_view(hoisted@) =~= autocors_view(hoisted@) + Seq::<
                AutocorView,
            >::empty());
            copy_group_spec(other)
        },
    }
}

fn hoist_named_list(args: &Vec<(String, Expr)>, hoisted: &mut Vec<Autocor>) -> (r: Vec<
    (String, Expr),
>)
    ensures
        named_view(r@) == hoist_named(named_view(args@), args@.len()).0,
        autocors_view(final(hoisted)@) == autocors_view(old(hoisted)@) + hoist_named(
            named_view(args@),
            args@.len(),
        ).1,
    decreases args,
{
    let ghost start = autocors_view(hoisted@);
    let mut out: Vec<(String, Expr)> = Vec::new();
    let mut i: usize = 0;
    let ghost all = named_view(args@);
    assert(named_view(out@) =~= hoist_named(all, 0).0);
    assert(autocors_view(hoisted@) =~= start + hoist_named(all, 0).1);
    while i < args.len()
        invariant
            i <= args.len(),
            all == named_view(args@),
            named_view(out@) == hoist_named(all, i as nat).0,
            autocors_view(hoisted@) == start + hoist_named(all, i as nat).1,
        decreases args.len() - i,
    {
        proof {
            assert(decreases_to!(*args => args[i as int]));
            assert(decreases_to!(args[i as int] => args[i as int].1));
        }
        let value = hoist_autocor_recursive(&args[i].1, hoisted);
        push_named(&mut out, args[i].0.clone(), value);
        proof {
            assert(autocors_view(hoisted@) =~= start + hoist_named(all, (i + 1) as nat).1);
        }
        i += 1;
    }
    out
}

fn hoist_list(ts: &Vec<Expr>, hoisted: &mut Vec<Autocor>) -> (r: Vec<Expr>)
    ensures
        exprs_view(r@) == hoist_first(exprs_view(ts@), ts@.len()).0,
        autocors_view(final(hoisted)@) == autocors_view(old(hoisted)@) + hoist_first(
            exprs_view(ts@),
            ts@.len(),
        ).1,
    decreases ts,
{
    let ghost start = autocors_view(hoisted@);
    let ghost all = exprs_view(ts@);
    let mut out: Vec<Expr> = Vec::new();
    let mut i: usize = 0;
    assert(exprs_view(out@) =~= hoist_first(all, 0).0);
    assert(autocors_view(hoisted@) =~= start + hoist_first(all, 0).1);
    while i < ts.len()
        invariant
            i <= ts.len(),
            all == exprs_view(ts@),
            exprs_view(out@) == hoist_first(all, i as nat).0,
            autocors_view(hoisted@) == start + hoist_first(all, i as nat).1,
        decreases ts.len() - i,
    {
        proof {
            assert(decreases_to!(*ts => ts[i as int]));
        }
        let value = hoist_autocor_recursive(&ts[i], hoisted);
        push_expr(&mut out, value);
        proof {
            assert(autocors_view(hoisted@) =~= start + hoist_first(all, (i + 1) as nat).1);
        }
        i += 1;
    }
    out
}

/// An expression without its autocorrelation calls, and the calls.
pub fn hoist_autocor(expr: &Expr) -> (r: (Expr, Vec<Autocor>))
    ensures
        r.0@ == hoist(expr@).0,
        autocors_view(r.1@) == hoist(expr@).1,
{
    let mut hoisted: Vec<Autocor> = Vec::new();
    assert(autocors_view(hoisted@) =~= Seq::<AutocorView>::empty());
    let cleaned = hoist_autocor_recursive(expr, &mut hoisted);
    assert(autocors_view(hoisted@) =~= hoist(expr@).1);
    (cleaned, hoisted)
}

} // verus!
