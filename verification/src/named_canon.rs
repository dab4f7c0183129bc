//! The canonical form keeps each name once in every list of named arguments.

use crate::ast::{AtermView, ExprView, GroupSpecView, ModelSpecView, NestKind};
use crate::canon::{
    canon, canon_aterm, canon_aterms, canon_dpars, canon_each, canon_group_spec, canon_model,
    canon_named,
};
use crate::flat::{
    crossings, crossings_of_size, interaction_result, pick, splice_interactions, splice_sums,
    sum_result,
};
use crate::hoist::hoist;
use crate::named::{
    all_well_named, lemma_hoist_keeps_names, names_once, well_named, well_named_args,
    well_named_spec,
};
use crate::named_model::{well_named_aterm, well_named_aterms, well_named_model, well_named_option};
use crate::normal::lemma_combinations_in_range;
use crate::subsets::combinations;
use vstd::prelude::*;

verus! {

proof fn lemma_joined(a: Seq<ExprView>, b: Seq<ExprView>)
    requires
        all_well_named(a),
        all_well_named(b),
    ensures
        all_well_named(a + b),
{
    let all = a + b;
    assert forall|i: int| 0 <= i < all.len() implies well_named(#[trigger] all[i]) by {
        if i < a.len() {
            assert(all[i] == a[i]);
        } else {
            assert(all[i] == b[i - a.len()]);
        }
    }
}

proof fn lemma_splice_sums(cs: Seq<ExprView>)
    requires
        all_well_named(cs),
    ensures
        all_well_named(splice_sums(cs)),
    decreases cs.len(),
{
    if cs.len() > 0 {
        let init = cs.drop_last();
        assert forall|i: int| 0 <= i < init.len() implies well_named(#[trigger] init[i]) by {
            assert(init[i] == cs[i]);
        }
        lemma_splice_sums(init);
        let last = cs.last();
        assert(last == cs[cs.len() - 1]);
        assert(well_named(last));
        let piece = match last {
            ExprView::Sum(xs) => xs,
            t => seq![t],
        };
        assert(all_well_named(piece));
        lemma_joined(splice_sums(init), piece);
    }
}

proof fn lemma_splice_interactions(cs: Seq<ExprView>)
    requires
        all_well_named(cs),
    ensures
        all_well_named(splice_interactions(cs)),
    decreases cs.len(),
{
    if cs.len() > 0 {
        let init = cs.drop_last();
        assert forall|i: int| 0 <= i < init.len() implies well_named(#[trigger] init[i]) by {
            assert(init[i] == cs[i]);
        }
        lemma_splice_interactions(init);
        let last = cs.last();
        assert(last == cs[cs.len() - 1]);
        assert(well_named(last));
        let piece = match last {
            ExprView::Interaction(xs) => xs,
            t => seq![t],
        };
        assert(all_well_named(piece));
        lemma_joined(splice_interactions(init), piece);
    }
}

proof fn lemma_sum_result(ts: Seq<ExprView>)
    requires
        all_well_named(ts),
    ensures
        well_named(sum_result(ts)),
{
    if ts.len() == 1 {
        assert(well_named(ts[0]));
    }
}

proof fn lemma_interaction_result(ts: Seq<ExprView>)
    requires
        all_well_named(ts),
    ensures
        well_named(interaction_result(ts)),
{
    if ts.len() == 1 {
        assert(well_named(ts[0]));
    }
}

proof fn lemma_crossings_of_size(cs: Seq<ExprView>, k: nat)
    requires
        all_well_named(cs),
    ensures
        all_well_named(crossings_of_size(cs, k)),
{
    let choices = combinations(0, cs.len() as int, k);
    lemma_combinations_in_range(0, cs.len() as int, k);
    let out = crossings_of_size(cs, k);
    assert forall|j: int| 0 <= j < out.len() implies well_named(#[trigger] out[j]) by {
        let picked = pick(cs, choices[j]);
        assert forall|b: int| 0 <= b < picked.len() implies well_named(#[trigger] picked[b]) by {
            let at = choices[j][b];
            assert(0 <= at < cs.len());
            assert(picked[b] == cs[at]);
        }
        lemma_splice_interactions(picked);
        lemma_interaction_result(splice_interactions(picked));
    }
}

proof fn lemma_crossings(cs: Seq<ExprView>, k: nat)
    requires
        all_well_named(cs),
    ensures
        all_well_named(crossings(cs, k)),
    decreases k,
{
    if k >= 2 {
        lemma_crossings(cs, (k - 1) as nat);
        lemma_crossings_of_size(cs, k);
        lemma_joined(crossings(cs, (k - 1) as nat), crossings_of_size(cs, k));
    }
}

/// The canonical form of a well named expression is well named.
pub proof fn lemma_canon_keeps_names(e: ExprView)
    requires
        well_named(e),
    ensures
        well_named(canon(e)),
    decreases e, 1nat,
{
    match e {
        ExprView::Prod(ts) => {
            assert(all_well_named(ts));
            if ts.len() == 1 {
                assert(well_named(ts[0]));
                lemma_canon_keeps_names(ts[0]);
            } else if ts.len() >= 2 {
                lemma_canon_list_keeps_names(ts);
                let cs = canon_each(ts);
                lemma_crossings(cs, cs.len());
                lemma_joined(cs, crossings(cs, cs.len()));
                lemma_splice_sums(cs + crossings(cs, cs.len()));
                lemma_sum_result(splice_sums(cs + crossings(cs, cs.len())));
            }
        },
        ExprView::Nest { outer, inner, kind } => {
            lemma_canon_keeps_names(*outer);
            lemma_canon_keeps_names(*inner);
            let o = canon(*outer);
            let i = canon(*inner);
            match kind {
                NestKind::Slash => {
                    let pair = seq![o, i];
                    assert forall|k: int| 0 <= k < pair.len() implies well_named(
                        #[trigger] pair[k],
                    ) by {
                        if k == 0 {
                            assert(pair[k] == o);
                        } else {
                            assert(pair[k] == i);
                        }
                    }
                    lemma_splice_interactions(pair);
                    lemma_interaction_result(splice_interactions(pair));
                    let x = interaction_result(splice_interactions(pair));
                    let both = seq![o, x];
                    assert forall|k: int| 0 <= k < both.len() implies well_named(
                        #[trigger] both[k],
                    ) by {
                        if k == 0 {
                            assert(both[k] == o);
                        } else {
                            assert(both[k] == x);
                        }
                    }
                    lemma_splice_sums(both);
                    lemma_sum_result(splice_sums(both));
                },
                NestKind::In => {},
            }
        },
        ExprView::Sum(ts) => {
            assert(all_well_named(ts));
            lemma_canon_list_keeps_names(ts);
            lemma_splice_sums(canon_each(ts));
            lemma_sum_result(splice_sums(canon_each(ts)));
        },
        ExprView::Interaction(ts) => {
            assert(all_well_named(ts));
            lemma_canon_list_keeps_names(ts);
            lemma_splice_interactions(canon_each(ts));
            lemma_interaction_result(splice_interactions(canon_each(ts)));
        },
        ExprView::Pow { base, exp } => {
            lemma_canon_keeps_names(*base);
            lemma_canon_keeps_names(*exp);
        },
        ExprView::Group { inner, spec, kind, id } => {
            lemma_canon_keeps_names(*inner);
            assert(well_named_spec(spec));
            let by = canon_group_spec(spec);
            match spec {
                GroupSpecView::Func { name, args } => {
                    assert(all_well_named(args));
                    lemma_canon_list_keeps_names(args);
                },
                _ => {},
            }
            assert(well_named_spec(by));
            match canon(*inner) {
                ExprView::Var(v) => {
                    let one = ExprView::Group {
                        inner: Box::new(ExprView::Intercept(true)),
                        spec: by,
                        kind,
                        id,
                    };
                    let parts = seq![ExprView::Intercept(false), ExprView::Var(v)];
                    assert forall|i: int| 0 <= i < parts.len() implies well_named(
                        #[trigger] parts[i],
                    ) by {
                        if i == 0 {
                            assert(parts[i] == ExprView::Intercept(false));
                        } else {
                            assert(parts[i] == ExprView::Var(v));
                        }
                    }
                    assert(all_well_named(parts));
                    let slope = ExprView::Group {
                        inner: Box::new(ExprView::Sum(parts)),
                        spec: by,
                        kind,
                        id,
                    };
                    assert(well_named(ExprView::Intercept(true)));
                    assert(well_named(one));
                    assert(well_named(ExprView::Sum(parts)));
                    assert(well_named(slope));
                    let both = seq![one, slope];
                    assert forall|i: int| 0 <= i < both.len() implies well_named(
                        #[trigger] both[i],
                    ) by {
                        if i == 0 {
                            assert(both[i] == one);
                        } else {
                            assert(both[i] == slope);
                        }
                    }
                    assert(all_well_named(both));
                    assert(canon(e) == ExprView::Sum(both));
                },
                _ => {},
            }
        },
        ExprView::Smooth { kind, vars, args } => {
            assert(well_named_args(args));
            assert(names_once(args));
            let cs = canon_named(args);
            assert forall|i: int| 0 <= i < cs.len() implies well_named((#[trigger] cs[i]).1) by {
                assert(well_named(args[i].1));
                lemma_canon_keeps_names(args[i].1);
            }
            assert forall|i: int, j: int| 0 <= i < j < cs.len() implies (#[trigger] cs[i]).0 != (
            #[trigger] cs[j]).0 by {
                assert(cs[i].0 == args[i].0);
                assert(cs[j].0 == args[j].0);
            }
            assert(well_named_args(cs));
        },
        ExprView::Func { name, args } => {
            assert(all_well_named(args));
            lemma_canon_list_keeps_names(args);
        },
        ExprView::Identity(inner) => {
            lemma_canon_keeps_names(*inner);
        },
        _ => {},
    }
}

proof fn lemma_canon_list_keeps_names(ts: Seq<ExprView>)
    requires
        all_well_named(ts),
    ensures
        all_well_named(canon_each(ts)),
    decreases ts, 0nat,
{
    assert forall|i: int| 0 <= i < ts.len() implies well_named(#[trigger] canon_each(ts)[i]) by {
        assert(well_named(ts[i]));
        lemma_canon_keeps_names(ts[i]);
    }
}

proof fn lemma_canon_option(o: Option<ExprView>)
    requires
        well_named_option(o),
    ensures
        well_named_option(crate::canon::canon_option(o)),
{
    match o {
        Some(e) => {
            lemma_canon_keeps_names(e);
        },
        None => {},
    }
}

proof fn lemma_canon_aterm(a: AtermView)
    requires
        well_named_aterm(a),
    ensures
        well_named_aterm(canon_aterm(a)),
{
    match a {
        AtermView::Se(e) => lemma_canon_keeps_names(e),
        AtermView::Weights(e) => lemma_canon_keeps_names(e),
        AtermView::Trials(e) => lemma_canon_keeps_names(e),
        AtermView::Cens(e) => lemma_canon_keeps_names(e),
        AtermView::Trunc { lb, ub } => {
            lemma_canon_option(lb);
            lemma_canon_option(ub);
        },
        AtermView::Subset(e) => lemma_canon_keeps_names(e),
        AtermView::Rate(e) => lemma_canon_keeps_names(e),
        AtermView::Thres { gr } => lemma_canon_option(gr),
        AtermView::Dec(e) => lemma_canon_keeps_names(e),
        AtermView::Cat(e) => lemma_canon_keeps_names(e),
        AtermView::Index(e) => lemma_canon_keeps_names(e),
        AtermView::VReal(es) => lemma_canon_list_keeps_names(es),
        AtermView::VInt(es) => lemma_canon_list_keeps_names(es),
        AtermView::Mi => {},
    }
}

proof fn lemma_canon_aterms(ts: Seq<AtermView>)
    requires
        well_named_aterms(ts),
    ensures
        well_named_aterms(canon_aterms(ts)),
    decreases ts.len(),
{
    if ts.len() > 0 {
        let init = ts.drop_last();
        assert forall|i: int| 0 <= i < init.len() implies well_named_aterm(#[trigger] init[i]) by {
            assert(init[i] == ts[i]);
        }
        lemma_canon_aterms(init);
        assert(ts.last() == ts[ts.len() - 1]);
        lemma_canon_aterm(ts.last());
        let kept = canon_aterms(init);
        let last = canon_aterm(ts.last());
        let out = kept.push(last);
        assert forall|i: int| 0 <= i < out.len() implies well_named_aterm(#[trigger] out[i]) by {
            if i < kept.len() {
                assert(out[i] == kept[i]);
            }
        }
    }
}

/// The canonical form of a model keeps each name once in every list of
/// named arguments, the lists of the autocorrelation terms that are taken
/// out of the right-hand side among them.
pub proof fn canonical_model_is_well_named(m: ModelSpecView)
    requires
        well_named_model(m),
    ensures
        well_named_model(canon_model(m)),
{
    let c = canon(m.formula.rhs);
    lemma_canon_keeps_names(m.formula.rhs);
    lemma_hoist_keeps_names(c);
    let h = hoist(c);
    lemma_canon_keeps_names(h.0);
    lemma_canon_aterms(m.formula.aterms);
    let ds = canon_dpars(m.dpars);
    assert forall|i: int| 0 <= i < ds.len() implies well_named((#[trigger] ds[i]).rhs) by {
        assert(well_named(m.dpars[i].rhs));
        lemma_canon_keeps_names(m.dpars[i].rhs);
    }
    let all = m.autocor + h.1;
    assert forall|i: int| 0 <= i < all.len() implies well_named_args((#[trigger] all[i]).args) by {
        if i < m.autocor.len() {
            assert(all[i] == m.autocor[i]);
        } else {
            assert(all[i] == h.1[i - m.autocor.len()]);
        }
    }
}

} // verus!
