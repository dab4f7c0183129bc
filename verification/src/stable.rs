//! Canonicalization of models is idempotent, and a canonical right-hand side
//! is in canonical form and fully expanded.

use crate::ast::{AtermView, AutocorView, DparView, ExprView, GroupSpecView, ModelSpecView, Text};
use crate::canon::{
    aterm_tag, canon, canon_aterm, canon_aterms, canon_dpars, canon_each, canon_group_spec,
    canon_model, canon_option, has_tag,
};
use crate::flat::{interaction_result, splice_interactions, splice_sums, sum_result};
use crate::hoist::{
    hoist, hoist_first, hoist_group_spec, hoist_named, is_autocor_name, without_ones,
};
use crate::normal::{
    canonicalize_expr_is_idempotent, is_canonical, lemma_canon_is_canonical,
    lemma_canonical_is_fixed,
};
use crate::pretty::model_text;
use vstd::prelude::*;

verus! {

/// Whether hoisting leaves an expression as it is and takes nothing out.
pub open spec fn settled(e: ExprView) -> bool {
    hoist(e) == (e, Seq::<AutocorView>::empty())
}

pub proof fn lemma_hoist_first_parts(ts: Seq<ExprView>, n: nat)
    requires
        n <= ts.len(),
    ensures
        hoist_first(ts, n).0.len() == n,
        forall|i: int| 0 <= i < n ==> #[trigger] hoist_first(ts, n).0[i] == hoist(ts[i]).0,
    decreases n,
{
    if n > 0 {
        lemma_hoist_first_parts(ts, (n - 1) as nat);
        let init = hoist_first(ts, (n - 1) as nat);
        let last = hoist(ts[n - 1]);
        assert(hoist_first(ts, n).0 == init.0.push(last.0));
        assert forall|i: int| 0 <= i < n implies #[trigger] hoist_first(ts, n).0[i] == hoist(
            ts[i],
        ).0 by {
            if i < n - 1 {
                assert(hoist_first(ts, n).0[i] == init.0[i]);
            }
        }
    }
}

pub proof fn lemma_hoist_named_parts(args: Seq<(Text, ExprView)>, n: nat)
    requires
        n <= args.len(),
    ensures
        hoist_named(args, n).0.len() == n,
        forall|i: int|
            0 <= i < n ==> #[trigger] hoist_named(args, n).0[i] == (
                args[i].0,
                hoist(args[i].1).0,
            ),
    decreases n,
{
    if n > 0 {
        lemma_hoist_named_parts(args, (n - 1) as nat);
        let init = hoist_named(args, (n - 1) as nat);
        let last = hoist(args[n - 1].1);
        assert(hoist_named(args, n).0 == init.0.push((args[n - 1].0, last.0)));
        assert forall|i: int| 0 <= i < n implies #[trigger] hoist_named(args, n).0[i] == (
            args[i].0,
            hoist(args[i].1).0,
        ) by {
            if i < n - 1 {
                assert(hoist_named(args, n).0[i] == init.0[i]);
            }
        }
    }
}

proof fn lemma_settled_list(ws: Seq<ExprView>, n: nat)
    requires
        n <= ws.len(),
        forall|i: int| 0 <= i < ws.len() ==> settled(#[trigger] ws[i]),
    ensures
        hoist_first(ws, n) == (ws.take(n as int), Seq::<AutocorView>::empty()),
    decreases n,
{
    if n == 0 {
        assert(ws.take(0) =~= Seq::<ExprView>::empty());
    } else {
        lemma_settled_list(ws, (n - 1) as nat);
        assert(settled(ws[n - 1]));
        assert(ws.take(n as int) =~= ws.take(n - 1).push(ws[n - 1]));
        assert(Seq::<AutocorView>::empty() + Seq::<AutocorView>::empty() =~= Seq::<
            AutocorView,
        >::empty());
    }
}

proof fn lemma_settled_named(ws: Seq<(Text, ExprView)>, n: nat)
    requires
        n <= ws.len(),
        forall|i: int| 0 <= i < ws.len() ==> settled((#[trigger] ws[i]).1),
    ensures
        hoist_named(ws, n) == (ws.take(n as int), Seq::<AutocorView>::empty()),
    decreases n,
{
    if n == 0 {
        assert(ws.take(0) =~= Seq::<(Text, ExprView)>::empty());
    } else {
        lemma_settled_named(ws, (n - 1) as nat);
        assert(settled(ws[n - 1].1));
        assert(ws.take(n as int) =~= ws.take(n - 1).push(ws[n - 1]));
        assert(Seq::<AutocorView>::empty() + Seq::<AutocorView>::empty() =~= Seq::<
            AutocorView,
        >::empty());
    }
}

pub proof fn lemma_without_ones_parts(ts: Seq<ExprView>)
    ensures
        forall|j: int|
            0 <= j < without_ones(ts).len() ==> (#[trigger] without_ones(ts)[j])
                != ExprView::Intercept(true) && exists|i: int|
                0 <= i < ts.len() && ts[i] == without_ones(ts)[j],
    decreases ts.len(),
{
    if ts.len() > 0 {
        let init = ts.drop_last();
        lemma_without_ones_parts(init);
        let w = without_ones(ts);
        let wi = without_ones(init);
        assert forall|j: int| 0 <= j < w.len() implies (#[trigger] w[j]) != ExprView::Intercept(
            true,
        ) && exists|i: int| 0 <= i < ts.len() && ts[i] == w[j] by {
            if j < wi.len() {
                assert(w[j] == wi[j]);
                let i = choose|i: int| 0 <= i < init.len() && init[i] == wi[j];
                assert(ts[i] == w[j]);
            } else {
                assert(w[j] == ts[ts.len() - 1]);
            }
        }
    }
}

proof fn lemma_without_ones_same(ws: Seq<ExprView>)
    requires
        forall|i: int| 0 <= i < ws.len() ==> (#[trigger] ws[i]) != ExprView::Intercept(true),
    ensures
        without_ones(ws) == ws,
    decreases ws.len(),
{
    if ws.len() > 0 {
        let init = ws.drop_last();
        assert forall|i: int| 0 <= i < init.len() implies (#[trigger] init[i])
            != ExprView::Intercept(true) by {
            assert(init[i] == ws[i]);
        }
        lemma_without_ones_same(init);
        assert(ws[ws.len() - 1] != ExprView::Intercept(true));
        assert(without_ones(ws) =~= ws);
    } else {
        assert(without_ones(ws) =~= ws);
    }
}

proof fn lemma_canon_each_twice(es: Seq<ExprView>)
    ensures
        canon_each(canon_each(es)) == canon_each(es),
{
    assert forall|i: int| 0 <= i < es.len() implies canon_each(canon_each(es))[i] == canon_each(
        es,
    )[i] by {
        canonicalize_expr_is_idempotent(es[i]);
    }
    assert(canon_each(canon_each(es)) =~= canon_each(es));
}

proof fn lemma_canon_option_twice(o: Option<ExprView>)
    ensures
        canon_option(canon_option(o)) == canon_option(o),
{
    match o {
        Some(e) => {
            canonicalize_expr_is_idempotent(e);
        },
        None => {},
    }
}

proof fn lemma_canon_aterm_twice(a: AtermView)
    ensures
        canon_aterm(canon_aterm(a)) == canon_aterm(a),
        aterm_tag(canon_aterm(a)) == aterm_tag(a),
{
    match a {
        AtermView::Se(e) => canonicalize_expr_is_idempotent(e),
        AtermView::Weights(e) => canonicalize_expr_is_idempotent(e),
        AtermView::Trials(e) => canonicalize_expr_is_idempotent(e),
        AtermView::Cens(e) => canonicalize_expr_is_idempotent(e),
        AtermView::Trunc { lb, ub } => {
            lemma_canon_option_twice(lb);
            lemma_canon_option_twice(ub);
        },
        AtermView::Subset(e) => canonicalize_expr_is_idempotent(e),
        AtermView::Rate(e) => canonicalize_expr_is_idempotent(e),
        AtermView::Thres { gr } => lemma_canon_option_twice(gr),
        AtermView::Dec(e) => canonicalize_expr_is_idempotent(e),
        AtermView::Cat(e) => canonicalize_expr_is_idempotent(e),
        AtermView::Index(e) => canonicalize_expr_is_idempotent(e),
        AtermView::VReal(es) => lemma_canon_each_twice(es),
        AtermView::VInt(es) => lemma_canon_each_twice(es),
        AtermView::Mi => {},
    }
}

/// Whether a list of modifiers is canonical: each one is its own canonical
/// form and no two are of one kind.
pub open spec fn stable_aterms(s: Seq<AtermView>) -> bool {
    &&& forall|i: int| 0 <= i < s.len() ==> canon_aterm(#[trigger] s[i]) == s[i]
    &&& forall|i: int, j: int|
        0 <= i < j < s.len() ==> aterm_tag(#[trigger] s[i]) != aterm_tag(#[trigger] s[j])
}

proof fn lemma_canon_aterms_stable(ts: Seq<AtermView>)
    ensures
        stable_aterms(canon_aterms(ts)),
    decreases ts.len(),
{
    if ts.len() > 0 {
        lemma_canon_aterms_stable(ts.drop_last());
        let kept = canon_aterms(ts.drop_last());
        let last = canon_aterm(ts.last());
        lemma_canon_aterm_twice(ts.last());
        if !has_tag(kept, aterm_tag(last)) {
            let all = kept.push(last);
            assert forall|i: int| 0 <= i < all.len() implies canon_aterm(#[trigger] all[i])
                == all[i] by {
                if i < kept.len() {
                    assert(all[i] == kept[i]);
                }
            }
            assert forall|i: int, j: int| 0 <= i < j < all.len() implies aterm_tag(
                #[trigger] all[i],
            ) != aterm_tag(#[trigger] all[j]) by {
                assert(all[i] == kept[i]);
                if j < kept.len() {
                    assert(all[j] == kept[j]);
                } else {
                    assert(all[j] == last);
                    if aterm_tag(kept[i]) == aterm_tag(last) {
                        assert(has_tag(kept, aterm_tag(last)));
                    }
                }
            }
        }
    }
}

proof fn lemma_stable_aterms_fixed(s: Seq<AtermView>)
    requires
        stable_aterms(s),
    ensures
        canon_aterms(s) == s,
    decreases s.len(),
{
    if s.len() > 0 {
        let init = s.drop_last();
        assert(stable_aterms(init)) by {
            assert forall|i: int| 0 <= i < init.len() implies canon_aterm(#[trigger] init[i])
                == init[i] by {
                assert(init[i] == s[i]);
            }
            assert forall|i: int, j: int| 0 <= i < j < init.len() implies aterm_tag(
                #[trigger] init[i],
            ) != aterm_tag(#[trigger] init[j]) by {
                assert(init[i] == s[i]);
                assert(init[j] == s[j]);
            }
        }
        lemma_stable_aterms_fixed(init);
        let last = s.last();
        assert(canon_aterm(last) == last) by {
            assert(last == s[s.len() - 1]);
        }
        if has_tag(init, aterm_tag(last)) {
            let j = choose|j: int| 0 <= j < init.len() && aterm_tag(#[trigger] init[j])
                == aterm_tag(last);
            assert(init[j] == s[j]);
            assert(aterm_tag(s[j]) != aterm_tag(s[s.len() - 1]));
        }
        assert(init.push(last) =~= s);
    } else {
        assert(canon_aterms(s) =~= s);
    }
}

proof fn lemma_canon_dpars_twice(ds: Seq<DparView>)
    ensures
        canon_dpars(canon_dpars(ds)) == canon_dpars(ds),
{
    assert forall|i: int| 0 <= i < ds.len() implies canon_dpars(canon_dpars(ds))[i]
        == canon_dpars(ds)[i] by {
        canonicalize_expr_is_idempotent(ds[i].rhs);
    }
    assert(canon_dpars(canon_dpars(ds)) =~= canon_dpars(ds));
}

/// Whether an expression is fully expanded: it holds no product and no
/// slash, at any depth.
pub open spec fn is_expanded(e: ExprView) -> bool
    decreases e,
{
    match e {
        ExprView::Sum(ts) => all_expanded(ts),
        ExprView::Prod(ts) => false,
        ExprView::Interaction(ts) => all_expanded(ts),
        ExprView::Nest { outer, inner, kind } => kind == crate::ast::NestKind::In && is_expanded(
            *outer,
        ) && is_expanded(*inner),
        ExprView::Pow { base, exp } => is_expanded(*base) && is_expanded(*exp),
        ExprView::Group { inner, spec, kind, id } => is_expanded(*inner) && is_expanded_spec(
            spec,
        ),
        ExprView::Smooth { kind, vars, args } => all_expanded_named(args),
        ExprView::Func { name, args } => all_expanded(args),
        ExprView::Identity(inner) => is_expanded(*inner),
        _ => true,
    }
}

pub open spec fn all_expanded(ts: Seq<ExprView>) -> bool
    decreases ts,
{
    forall|i: int| 0 <= i < ts.len() ==> is_expanded(#[trigger] ts[i])
}

pub open spec fn all_expanded_named(args: Seq<(Text, ExprView)>) -> bool
    decreases args,
{
    forall|i: int| 0 <= i < args.len() ==> is_expanded((#[trigger] args[i]).1)
}

pub open spec fn is_expanded_spec(g: GroupSpecView) -> bool
    decreases g,
{
    match g {
        GroupSpecView::Func { name, args } => all_expanded(args),
        _ => true,
    }
}

/// What is in canonical form is fully expanded.
pub proof fn lemma_canonical_is_expanded(e: ExprView)
    requires
        is_canonical(e),
    ensures
        is_expanded(e),
    decreases e, 1nat,
{
    match e {
        ExprView::Sum(ts) => lemma_canonical_list_expanded(ts),
        ExprView::Interaction(ts) => lemma_canonical_list_expanded(ts),
        ExprView::Nest { outer, inner, kind } => {
            lemma_canonical_is_expanded(*outer);
            lemma_canonical_is_expanded(*inner);
        },
        ExprView::Pow { base, exp } => {
            lemma_canonical_is_expanded(*base);
            lemma_canonical_is_expanded(*exp);
        },
        ExprView::Group { inner, spec, kind, id } => {
            lemma_canonical_is_expanded(*inner);
            assert(crate::normal::is_canonical_spec(spec));
            match spec {
                GroupSpecView::Func { name, args } => {
                    assert(crate::normal::all_canonical(args));
                    lemma_canonical_list_expanded(args);
                },
                _ => {},
            }
            assert(is_expanded_spec(spec));
        },
        ExprView::Smooth { kind, vars, args } => {
            assert(crate::normal::all_canonical_named(args));
            assert forall|i: int| 0 <= i < args.len() implies is_expanded(
                (#[trigger] args[i]).1,
            ) by {
                assert(is_canonical(args[i].1));
                lemma_canonical_is_expanded(args[i].1);
            }
            assert(all_expanded_named(args));
        },
        ExprView::Func { name, args } => lemma_canonical_list_expanded(args),
        ExprView::Identity(inner) => lemma_canonical_is_expanded(*inner),
        _ => {},
    }
}

proof fn lemma_canonical_list_expanded(ts: Seq<ExprView>)
    requires
        crate::normal::all_canonical(ts),
    ensures
        all_expanded(ts),
    decreases ts, 0nat,
{
    assert forall|i: int| 0 <= i < ts.len() implies is_expanded(#[trigger] ts[i]) by {
        assert(is_canonical(ts[i]));
        lemma_canonical_is_expanded(ts[i]);
    }
}

/// Hoisting leaves what is fully expanded fully expanded.
pub proof fn lemma_hoist_keeps_expanded(e: ExprView)
    requires
        is_expanded(e),
    ensures
        is_expanded(hoist(e).0),
    decreases e, 1nat,
{
    match e {
        ExprView::Func { name, args } => {
            if !is_autocor_name(name) {
                lemma_hoist_list_keeps_expanded(args);
                assert(is_expanded(
                    ExprView::Func { name, args: hoist_first(args, args.len()).0 },
                ));
            } else {
                assert(is_expanded(ExprView::Intercept(true)));
            }
        },
        ExprView::Sum(ts) => {
            lemma_hoist_list_keeps_expanded(ts);
            let r = hoist_first(ts, ts.len());
            let w = without_ones(r.0);
            lemma_without_ones_parts(r.0);
            assert forall|j: int| 0 <= j < w.len() implies is_expanded(#[trigger] w[j]) by {
                let i = choose|i: int| 0 <= i < r.0.len() && r.0[i] == w[j];
                assert(is_expanded(r.0[i]));
            }
            assert(all_expanded(w));
            if w.len() == 1 {
                assert(is_expanded(w[0]));
            }
            assert(is_expanded(sum_result(w)));
        },
        ExprView::Interaction(ts) => {
            lemma_hoist_list_keeps_expanded(ts);
            let r = hoist_first(ts, ts.len());
            if r.0.len() == 1 {
                assert(is_expanded(r.0[0]));
            }
            assert(is_expanded(interaction_result(r.0)));
        },
        ExprView::Nest { outer, inner, kind } => {
            lemma_hoist_keeps_expanded(*outer);
            lemma_hoist_keeps_expanded(*inner);
        },
        ExprView::Pow { base, exp } => {
            lemma_hoist_keeps_expanded(*base);
            lemma_hoist_keeps_expanded(*exp);
        },
        ExprView::Group { inner, spec, kind, id } => {
            lemma_hoist_keeps_expanded(*inner);
            let b = hoist_group_spec(spec);
            assert(is_expanded_spec(spec));
            match spec {
                GroupSpecView::Func { name, args } => {
                    assert(all_expanded(args));
                    lemma_hoist_list_keeps_expanded(args);
                    assert(b.0 == GroupSpecView::Func {
                        name,
                        args: hoist_first(args, args.len()).0,
                    });
                },
                _ => {
                    assert(b.0 == spec);
                },
            }
            assert(is_expanded_spec(b.0));
        },
        ExprView::Smooth { kind, vars, args } => {
            lemma_hoist_named_parts(args, args.len());
            let r = hoist_named(args, args.len());
            assert(all_expanded_named(args));
            assert forall|i: int| 0 <= i < r.0.len() implies is_expanded(
                (#[trigger] r.0[i]).1,
            ) by {
                assert(is_expanded(args[i].1));
                lemma_hoist_keeps_expanded(args[i].1);
            }
            assert(all_expanded_named(r.0));
        },
        ExprView::Identity(inner) => {
            lemma_hoist_keeps_expanded(*inner);
        },
        _ => {},
    }
}

proof fn lemma_hoist_list_keeps_expanded(ts: Seq<ExprView>)
    requires
        all_expanded(ts),
    ensures
        all_expanded(hoist_first(ts, ts.len()).0),
    decreases ts, 0nat,
{
    lemma_hoist_first_parts(ts, ts.len());
    let r = hoist_first(ts, ts.len());
    assert forall|i: int| 0 <= i < r.0.len() implies is_expanded(#[trigger] r.0[i]) by {
        assert(is_expanded(ts[i]));
        lemma_hoist_keeps_expanded(ts[i]);
    }
}

/// Whether hoisting has nothing to do in an expression: it holds no
/// autocorrelation call, no sum holds the term `1`, and every sum and every
/// interaction has two parts or more.
pub open spec fn is_settled(e: ExprView) -> bool
    decreases e,
{
    match e {
        ExprView::Sum(ts) => ts.len() >= 2 && all_settled(ts) && forall|i: int|
            0 <= i < ts.len() ==> (#[trigger] ts[i]) != ExprView::Intercept(true),
        ExprView::Prod(ts) => all_settled(ts),
        ExprView::Interaction(ts) => ts.len() >= 2 && all_settled(ts),
        ExprView::Nest { outer, inner, kind } => is_settled(*outer) && is_settled(*inner),
        ExprView::Pow { base, exp } => is_settled(*base) && is_settled(*exp),
        ExprView::Group { inner, spec, kind, id } => is_settled(*inner) && is_settled_spec(spec),
        ExprView::Smooth { kind, vars, args } => all_settled_named(args),
        ExprView::Func { name, args } => !is_autocor_name(name) && all_settled(args),
        ExprView::Identity(inner) => is_settled(*inner),
        _ => true,
    }
}

pub open spec fn all_settled(ts: Seq<ExprView>) -> bool
    decreases ts,
{
    forall|i: int| 0 <= i < ts.len() ==> is_settled(#[trigger] ts[i])
}

pub open spec fn all_settled_named(args: Seq<(Text, ExprView)>) -> bool
    decreases args,
{
    forall|i: int| 0 <= i < args.len() ==> is_settled((#[trigger] args[i]).1)
}

pub open spec fn is_settled_spec(g: GroupSpecView) -> bool
    decreases g,
{
    match g {
        GroupSpecView::Func { name, args } => all_settled(args),
        _ => true,
    }
}

/// What hoisting leaves is settled.
pub proof fn lemma_hoist_gives_settled(e: ExprView)
    ensures
        is_settled(hoist(e).0),
    decreases e, 1nat,
{
    match e {
        ExprView::Func { name, args } => {
            if !is_autocor_name(name) {
                lemma_hoist_list_gives_settled(args);
                assert(is_settled(
                    ExprView::Func { name, args: hoist_first(args, args.len()).0 },
                ));
            } else {
                assert(is_settled(ExprView::Intercept(true)));
            }
        },
        ExprView::Sum(ts) => {
            lemma_hoist_list_gives_settled(ts);
            let r = hoist_first(ts, ts.len());
            let w = without_ones(r.0);
            lemma_without_ones_parts(r.0);
            assert forall|j: int| 0 <= j < w.len() implies is_settled(#[trigger] w[j]) by {
                let i = choose|i: int| 0 <= i < r.0.len() && r.0[i] == w[j];
                assert(is_settled(r.0[i]));
            }
            assert(all_settled(w));
            if w.len() == 1 {
                assert(is_settled(w[0]));
            }
            assert(is_settled(sum_result(w)));
        },
        ExprView::Interaction(ts) => {
            lemma_hoist_list_gives_settled(ts);
            let r = hoist_first(ts, ts.len());
            if r.0.len() == 1 {
                assert(is_settled(r.0[0]));
            }
            assert(is_settled(interaction_result(r.0)));
        },
        ExprView::Prod(ts) => {
            lemma_hoist_list_gives_settled(ts);
        },
        ExprView::Nest { outer, inner, kind } => {
            lemma_hoist_gives_settled(*outer);
            lemma_hoist_gives_settled(*inner);
        },
        ExprView::Pow { base, exp } => {
            lemma_hoist_gives_settled(*base);
            lemma_hoist_gives_settled(*exp);
        },
        ExprView::Group { inner, spec, kind, id } => {
            lemma_hoist_gives_settled(*inner);
            let b = hoist_group_spec(spec);
            match spec {
                GroupSpecView::Func { name, args } => {
                    lemma_hoist_list_gives_settled(args);
                    assert(b.0 == GroupSpecView::Func {
                        name,
                        args: hoist_first(args, args.len()).0,
                    });
                },
                _ => {
                    assert(b.0 == spec);
                },
            }
            assert(is_settled_spec(b.0));
        },
        ExprView::Smooth { kind, vars, args } => {
            lemma_hoist_named_parts(args, args.len());
            let r = hoist_named(args, args.len());
            assert forall|i: int| 0 <= i < r.0.len() implies is_settled(
                (#[trigger] r.0[i]).1,
            ) by {
                lemma_hoist_gives_settled(args[i].1);
            }
            assert(all_settled_named(r.0));
        },
        ExprView::Identity(inner) => {
            lemma_hoist_gives_settled(*inner);
        },
        _ => {},
    }
}

proof fn lemma_hoist_list_gives_settled(ts: Seq<ExprView>)
    ensures
        all_settled(hoist_first(ts, ts.len()).0),
    decreases ts, 0nat,
{
    lemma_hoist_first_parts(ts, ts.len());
    let r = hoist_first(ts, ts.len());
    assert forall|i: int| 0 <= i < r.0.len() implies is_settled(#[trigger] r.0[i]) by {
        lemma_hoist_gives_settled(ts[i]);
    }
}

/// Hoisting leaves what is settled as it is and takes nothing out of it.
pub proof fn lemma_settled_is_left(e: ExprView)
    requires
        is_settled(e),
    ensures
        settled(e),
    decreases e, 1nat,
{
    let none = Seq::<AutocorView>::empty();
    assert(none + none =~= none);
    match e {
        ExprView::Func { name, args } => {
            lemma_settled_list_is_left(args);
        },
        ExprView::Sum(ts) => {
            lemma_settled_list_is_left(ts);
            lemma_without_ones_same(ts);
        },
        ExprView::Interaction(ts) => {
            lemma_settled_list_is_left(ts);
        },
        ExprView::Prod(ts) => {
            lemma_settled_list_is_left(ts);
        },
        ExprView::Nest { outer, inner, kind } => {
            lemma_settled_is_left(*outer);
            lemma_settled_is_left(*inner);
        },
        ExprView::Pow { base, exp } => {
            lemma_settled_is_left(*base);
            lemma_settled_is_left(*exp);
        },
        ExprView::Group { inner, spec, kind, id } => {
            lemma_settled_is_left(*inner);
            assert(is_settled_spec(spec));
            match spec {
                GroupSpecView::Func { name, args } => {
                    assert(all_settled(args));
                    lemma_settled_list_is_left(args);
                },
                _ => {},
            }
            assert(hoist_group_spec(spec) == (spec, none));
        },
        ExprView::Smooth { kind, vars, args } => {
            assert(all_settled_named(args));
            assert forall|i: int| 0 <= i < args.len() implies settled((#[trigger] args[i]).1) by {
                assert(is_settled(args[i].1));
                lemma_settled_is_left(args[i].1);
            }
            lemma_settled_named(args, args.len());
            assert(args.take(args.len() as int) =~= args);
        },
        ExprView::Identity(inner) => {
            lemma_settled_is_left(*inner);
        },
        _ => {},
    }
}

proof fn lemma_settled_list_is_left(ts: Seq<ExprView>)
    requires
        all_settled(ts),
    ensures
        hoist_first(ts, ts.len()) == (ts, Seq::<AutocorView>::empty()),
    decreases ts, 0nat,
{
    assert forall|i: int| 0 <= i < ts.len() implies settled(#[trigger] ts[i]) by {
        assert(is_settled(ts[i]));
        lemma_settled_is_left(ts[i]);
    }
    lemma_settled_list(ts, ts.len());
    assert(ts.take(ts.len() as int) =~= ts);
}

proof fn lemma_splice_sums_settled(cs: Seq<ExprView>)
    requires
        all_settled(cs),
        forall|i: int| 0 <= i < cs.len() ==> (#[trigger] cs[i]) != ExprView::Intercept(true),
    ensures
        all_settled(splice_sums(cs)),
        forall|j: int|
            0 <= j < splice_sums(cs).len() ==> (#[trigger] splice_sums(cs)[j])
                != ExprView::Intercept(true),
        splice_sums(cs).len() >= cs.len(),
    decreases cs.len(),
{
    if cs.len() > 0 {
        let init = cs.drop_last();
        assert forall|i: int| 0 <= i < init.len() implies is_settled(#[trigger] init[i])
            && init[i] != ExprView::Intercept(true) by {
            assert(init[i] == cs[i]);
        }
        lemma_splice_sums_settled(init);
        let last = cs.last();
        assert(last == cs[cs.len() - 1]);
        assert(is_settled(last));
        let piece = match last {
            ExprView::Sum(xs) => xs,
            t => seq![t],
        };
        assert(piece.len() >= 1 && all_settled(piece) && forall|k: int|
            0 <= k < piece.len() ==> (#[trigger] piece[k]) != ExprView::Intercept(true));
        let before = splice_sums(init);
        let whole = before + piece;
        assert forall|j: int| 0 <= j < whole.len() implies is_settled(#[trigger] whole[j])
            && whole[j] != ExprView::Intercept(true) by {
            if j < before.len() {
                assert(whole[j] == before[j]);
            } else {
                assert(whole[j] == piece[j - before.len()]);
            }
        }
    }
}

proof fn lemma_splice_interactions_settled(cs: Seq<ExprView>)
    requires
        all_settled(cs),
    ensures
        all_settled(splice_interactions(cs)),
        splice_interactions(cs).len() >= cs.len(),
    decreases cs.len(),
{
    if cs.len() > 0 {
        let init = cs.drop_last();
        assert forall|i: int| 0 <= i < init.len() implies is_settled(#[trigger] init[i]) by {
            assert(init[i] == cs[i]);
        }
        lemma_splice_interactions_settled(init);
        let last = cs.last();
        assert(last == cs[cs.len() - 1]);
        assert(is_settled(last));
        let piece = match last {
            ExprView::Interaction(xs) => xs,
            t => seq![t],
        };
        assert(piece.len() >= 1 && all_settled(piece));
        let before = splice_interactions(init);
        let whole = before + piece;
        assert forall|j: int| 0 <= j < whole.len() implies is_settled(#[trigger] whole[j]) by {
            if j < before.len() {
                assert(whole[j] == before[j]);
            } else {
                assert(whole[j] == piece[j - before.len()]);
            }
        }
    }
}

/// The canonical form of what is settled and fully expanded is settled, and
/// it is the term `1` only where the expression is.
pub proof fn lemma_canon_keeps_settled(e: ExprView)
    requires
        is_settled(e),
        is_expanded(e),
    ensures
        is_settled(canon(e)),
        canon(e) == ExprView::Intercept(true) ==> e == ExprView::Intercept(true),
    decreases e, 1nat,
{
    match e {
        ExprView::Sum(ts) => {
            lemma_canon_list_keeps_settled(ts);
            let cs = canon_each(ts);
            assert forall|i: int| 0 <= i < cs.len() implies (#[trigger] cs[i])
                != ExprView::Intercept(true) by {
                assert(ts[i] != ExprView::Intercept(true));
            }
            lemma_splice_sums_settled(cs);
        },
        ExprView::Interaction(ts) => {
            lemma_canon_list_keeps_settled(ts);
            lemma_splice_interactions_settled(canon_each(ts));
        },
        ExprView::Nest { outer, inner, kind } => {
            lemma_canon_keeps_settled(*outer);
            lemma_canon_keeps_settled(*inner);
        },
        ExprView::Pow { base, exp } => {
            lemma_canon_keeps_settled(*base);
            lemma_canon_keeps_settled(*exp);
        },
        ExprView::Group { inner, spec, kind, id } => {
            lemma_canon_keeps_settled(*inner);
            assert(is_settled_spec(spec));
            assert(is_expanded_spec(spec));
            let by = canon_group_spec(spec);
            match spec {
                GroupSpecView::Func { name, args } => {
                    assert(all_settled(args));
                    assert(all_expanded(args));
                    lemma_canon_list_keeps_settled(args);
                },
                _ => {},
            }
            assert(is_settled_spec(by));
            match canon(*inner) {
                ExprView::Var(v) => {
                    let one = ExprView::Group {
                        inner: Box::new(ExprView::Intercept(true)),
                        spec: by,
                        kind,
                        id,
                    };
                    let parts = seq![ExprView::Intercept(false), ExprView::Var(v)];
                    assert forall|i: int| 0 <= i < parts.len() implies is_settled(
                        #[trigger] parts[i],
                    ) && parts[i] != ExprView::Intercept(true) by {
                        if i == 0 {
                            assert(parts[i] == ExprView::Intercept(false));
                        } else {
                            assert(parts[i] == ExprView::Var(v));
                        }
                    }
                    assert(all_settled(parts));
                    let slope = ExprView::Group {
                        inner: Box::new(ExprView::Sum(parts)),
                        spec: by,
                        kind,
                        id,
                    };
                    assert(is_settled(ExprView::Intercept(true)));
                    assert(is_settled(one));
                    assert(is_settled(ExprView::Sum(parts)));
                    assert(is_settled(slope));
                    let both = seq![one, slope];
                    assert forall|i: int| 0 <= i < both.len() implies is_settled(
                        #[trigger] both[i],
                    ) && both[i] != ExprView::Intercept(true) by {
                        if i == 0 {
                            assert(both[i] == one);
                        } else {
                            assert(both[i] == slope);
                        }
                    }
                    assert(all_settled(both));
                    assert(canon(e) == ExprView::Sum(both));
                },
                _ => {},
            }
        },
        ExprView::Smooth { kind, vars, args } => {
            assert(all_settled_named(args));
            assert(all_expanded_named(args));
            let cs = crate::canon::canon_named(args);
            assert forall|i: int| 0 <= i < cs.len() implies is_settled((#[trigger] cs[i]).1) by {
                assert(is_settled(args[i].1));
                assert(is_expanded(args[i].1));
                lemma_canon_keeps_settled(args[i].1);
            }
            assert(all_settled_named(cs));
        },
        ExprView::Func { name, args } => {
            lemma_canon_list_keeps_settled(args);
        },
        ExprView::Identity(inner) => {
            lemma_canon_keeps_settled(*inner);
        },
        _ => {},
    }
}

proof fn lemma_canon_list_keeps_settled(ts: Seq<ExprView>)
    requires
        all_settled(ts),
        all_expanded(ts),
    ensures
        all_settled(canon_each(ts)),
        forall|i: int|
            0 <= i < ts.len() && canon_each(ts)[i] == ExprView::Intercept(true) ==> (
            #[trigger] ts[i]) == ExprView::Intercept(true),
    decreases ts, 0nat,
{
    assert forall|i: int| 0 <= i < ts.len() implies is_settled(#[trigger] canon_each(ts)[i]) && (
    canon_each(ts)[i] == ExprView::Intercept(true) ==> ts[i] == ExprView::Intercept(true)) by {
        assert(is_settled(ts[i]));
        assert(is_expanded(ts[i]));
        lemma_canon_keeps_settled(ts[i]);
    }
}

/// The right-hand side of a canonical model is in canonical form, fully
/// expanded and settled: it holds no product, no slash and no autocorrelation
/// call, no sum stands in a sum and no interaction in an interaction.
pub proof fn canonical_model_is_canonical(m: ModelSpecView)
    ensures
        is_canonical(canon_model(m).formula.rhs),
        is_expanded(canon_model(m).formula.rhs),
        is_settled(canon_model(m).formula.rhs),
{
    let first = canon(m.formula.rhs);
    lemma_canon_is_canonical(m.formula.rhs);
    lemma_canonical_is_expanded(first);
    let left = hoist(first).0;
    lemma_hoist_keeps_expanded(first);
    lemma_hoist_gives_settled(first);
    lemma_canon_is_canonical(left);
    lemma_canonical_is_expanded(canon(left));
    lemma_canon_keeps_settled(left);
}

/// Canonicalization of models is idempotent: the canonical form of a
/// canonical model is that model itself, and so is its text.
pub proof fn canonicalize_is_idempotent(m: ModelSpecView)
    ensures
        canon_model(canon_model(m)) == canon_model(m),
        model_text(canon_model(canon_model(m))) == model_text(canon_model(m)),
{
    let once = canon_model(m);
    let twice = canon_model(once);
    let rhs = once.formula.rhs;
    canonical_model_is_canonical(m);
    lemma_canonical_is_fixed(rhs);
    lemma_settled_is_left(rhs);
    assert(hoist(canon(rhs)) == (rhs, Seq::<AutocorView>::empty()));
    lemma_canon_aterms_stable(m.formula.aterms);
    lemma_stable_aterms_fixed(once.formula.aterms);
    lemma_canon_dpars_twice(m.dpars);
    assert(once.autocor + Seq::<AutocorView>::empty() =~= once.autocor);
    assert(twice.formula == once.formula);
    assert(twice == once);
}

} // verus!
