//! Facts about the canonical form: what is in canonical form, that the
//! canonical form of every expression is, and that it is a fixed point.

use crate::ast::{ExprView, GroupSpecView, Text};
use crate::canon::{canon, canon_each, canon_group_spec, canon_named, group_result};
use crate::flat::{
    crossings, crossings_of_size, interaction_result, pick, splice_interactions, splice_sums,
    sum_result,
};
use crate::subsets::combinations;
use vstd::prelude::*;

verus! {

/// Whether an expression is in canonical form: it holds no product and no
/// slash, no sum stands in a sum and no interaction in an interaction, sums
/// and interactions have at least two parts, no group term stands over a bare
/// variable, and every part is in canonical form.
pub open spec fn is_canonical(e: ExprView) -> bool
    decreases e,
{
    match e {
        ExprView::Sum(ts) => ts.len() >= 2 && all_canonical(ts) && forall|i: int|
            0 <= i < ts.len() ==> !(#[trigger] ts[i] is Sum),
        ExprView::Prod(ts) => false,
        ExprView::Interaction(ts) => ts.len() >= 2 && all_canonical(ts) && forall|i: int|
            0 <= i < ts.len() ==> !(#[trigger] ts[i] is Interaction),
        ExprView::Nest { outer, inner, kind } => kind == crate::ast::NestKind::In && is_canonical(
            *outer,
        ) && is_canonical(*inner),
        ExprView::Pow { base, exp } => is_canonical(*base) && is_canonical(*exp),
        ExprView::Group { inner, spec, kind, id } => !(*inner is Var) && is_canonical(*inner)
            && is_canonical_spec(spec),
        ExprView::Smooth { kind, vars, args } => all_canonical_named(args),
        ExprView::Func { name, args } => all_canonical(args),
        ExprView::Identity(inner) => is_canonical(*inner),
        _ => true,
    }
}

pub open spec fn all_canonical(ts: Seq<ExprView>) -> bool
    decreases ts,
{
    forall|i: int| 0 <= i < ts.len() ==> is_canonical(#[trigger] ts[i])
}

pub open spec fn all_canonical_named(args: Seq<(Text, ExprView)>) -> bool
    decreases args,
{
    forall|i: int| 0 <= i < args.len() ==> is_canonical((#[trigger] args[i]).1)
}

pub open spec fn is_canonical_spec(g: GroupSpecView) -> bool
    decreases g,
{
    match g {
        GroupSpecView::Func { name, args } => all_canonical(args),
        _ => true,
    }
}

/// Whether every term of a list is canonical and none is a sum.
pub open spec fn flat_terms(ts: Seq<ExprView>) -> bool {
    all_canonical(ts) && forall|i: int| 0 <= i < ts.len() ==> !(#[trigger] ts[i] is Sum)
}

/// Whether every factor of a list is canonical and none is an interaction.
pub open spec fn flat_factors(ts: Seq<ExprView>) -> bool {
    all_canonical(ts) && forall|i: int| 0 <= i < ts.len() ==> !(#[trigger] ts[i] is Interaction)
}

proof fn lemma_splice_sums_flat(ts: Seq<ExprView>)
    requires
        all_canonical(ts),
    ensures
        flat_terms(splice_sums(ts)),
    decreases ts.len(),
{
    if ts.len() > 0 {
        let init = ts.drop_last();
        assert forall|i: int| 0 <= i < init.len() implies is_canonical(#[trigger] init[i]) by {
            assert(init[i] == ts[i]);
        }
        lemma_splice_sums_flat(init);
        let last = ts.last();
        assert(is_canonical(last)) by {
            assert(last == ts[ts.len() - 1]);
        }
        let piece = match last {
            ExprView::Sum(xs) => xs,
            t => seq![t],
        };
        assert(flat_terms(piece));
        let whole = splice_sums(init) + piece;
        assert forall|i: int| 0 <= i < whole.len() implies is_canonical(#[trigger] whole[i]) && !(
        whole[i] is Sum) by {
            if i < splice_sums(init).len() {
                assert(whole[i] == splice_sums(init)[i]);
            } else {
                assert(whole[i] == piece[i - splice_sums(init).len()]);
            }
        }
    }
}

proof fn lemma_splice_interactions_flat(ts: Seq<ExprView>)
    requires
        all_canonical(ts),
    ensures
        flat_factors(splice_interactions(ts)),
    decreases ts.len(),
{
    if ts.len() > 0 {
        let init = ts.drop_last();
        assert forall|i: int| 0 <= i < init.len() implies is_canonical(#[trigger] init[i]) by {
            assert(init[i] == ts[i]);
        }
        lemma_splice_interactions_flat(init);
        let last = ts.last();
        assert(is_canonical(last)) by {
            assert(last == ts[ts.len() - 1]);
        }
        let piece = match last {
            ExprView::Interaction(xs) => xs,
            t => seq![t],
        };
        assert(flat_factors(piece));
        let whole = splice_interactions(init) + piece;
        assert forall|i: int| 0 <= i < whole.len() implies is_canonical(#[trigger] whole[i]) && !(
        whole[i] is Interaction) by {
            if i < splice_interactions(init).len() {
                assert(whole[i] == splice_interactions(init)[i]);
            } else {
                assert(whole[i] == piece[i - splice_interactions(init).len()]);
            }
        }
    }
}

proof fn lemma_sum_result_canonical(ts: Seq<ExprView>)
    requires
        flat_terms(ts),
    ensures
        is_canonical(sum_result(ts)),
{
    if ts.len() == 1 {
        assert(is_canonical(ts[0]));
    }
}

proof fn lemma_interaction_result_canonical(ts: Seq<ExprView>)
    requires
        flat_factors(ts),
    ensures
        is_canonical(interaction_result(ts)),
{
    if ts.len() == 1 {
        assert(is_canonical(ts[0]));
    }
}

/// The sum of canonical terms, flattened, is canonical.
proof fn lemma_flat_sum(ts: Seq<ExprView>)
    requires
        all_canonical(ts),
    ensures
        is_canonical(sum_result(splice_sums(ts))),
{
    lemma_splice_sums_flat(ts);
    lemma_sum_result_canonical(splice_sums(ts));
}

/// The interaction of canonical factors, flattened, is canonical.
proof fn lemma_flat_interaction(ts: Seq<ExprView>)
    requires
        all_canonical(ts),
    ensures
        is_canonical(interaction_result(splice_interactions(ts))),
{
    lemma_splice_interactions_flat(ts);
    lemma_interaction_result_canonical(splice_interactions(ts));
}

/// Every index of every choice lies in the range that is chosen from.
pub proof fn lemma_combinations_in_range(start: int, n: int, k: nat)
    ensures
        forall|j: int, b: int|
            0 <= j < combinations(start, n, k).len() && 0 <= b < combinations(start, n, k)[j].len()
                ==> start <= #[trigger] combinations(start, n, k)[j][b] < n,
    decreases k, n - start,
{
    if k == 0 || n - start < k as int {
    } else if k == 1 {
    } else {
        lemma_combinations_in_range(start + 1, n, (k - 1) as nat);
        lemma_combinations_in_range(start + 1, n, k);
        let with = combinations(start + 1, n, (k - 1) as nat);
        let first = Seq::new(with.len(), |j: int| seq![start] + with[j]);
        let second = combinations(start + 1, n, k);
        let all = combinations(start, n, k);
        assert(all == first + second);
        assert forall|j: int, b: int| 0 <= j < all.len() && 0 <= b < all[j].len() implies start
            <= #[trigger] all[j][b] < n by {
            if j < first.len() {
                assert(all[j] == first[j]);
                if b > 0 {
                    assert(first[j][b] == with[j][b - 1]);
                }
            } else {
                assert(all[j] == second[j - first.len()]);
            }
        }
    }
}

proof fn lemma_crossings_of_size_canonical(cs: Seq<ExprView>, k: nat)
    requires
        all_canonical(cs),
    ensures
        all_canonical(crossings_of_size(cs, k)),
{
    let choices = combinations(0, cs.len() as int, k);
    lemma_combinations_in_range(0, cs.len() as int, k);
    let out = crossings_of_size(cs, k);
    assert forall|j: int| 0 <= j < out.len() implies is_canonical(#[trigger] out[j]) by {
        let picked = pick(cs, choices[j]);
        assert forall|b: int| 0 <= b < picked.len() implies is_canonical(#[trigger] picked[b]) by {
            let at = choices[j][b];
            assert(0 <= at < cs.len());
            assert(picked[b] == cs[at]);
        }
        lemma_flat_interaction(picked);
    }
}

proof fn lemma_crossings_canonical(cs: Seq<ExprView>, k: nat)
    requires
        all_canonical(cs),
    ensures
        all_canonical(crossings(cs, k)),
    decreases k,
{
    if k >= 2 {
        lemma_crossings_canonical(cs, (k - 1) as nat);
        lemma_crossings_of_size_canonical(cs, k);
        let a = crossings(cs, (k - 1) as nat);
        let b = crossings_of_size(cs, k);
        let all = crossings(cs, k);
        assert(all == a + b);
        assert forall|i: int| 0 <= i < all.len() implies is_canonical(#[trigger] all[i]) by {
            if i < a.len() {
                assert(all[i] == a[i]);
            } else {
                assert(all[i] == b[i - a.len()]);
            }
        }
    }
}

proof fn lemma_group_result_canonical(
    inner: ExprView,
    spec: GroupSpecView,
    kind: crate::ast::GroupKind,
    id: Option<Text>,
)
    requires
        is_canonical(inner),
        is_canonical_spec(spec),
    ensures
        is_canonical(group_result(inner, spec, kind, id)),
{
    match inner {
        ExprView::Var(v) => {
            let one = ExprView::Group {
                inner: Box::new(ExprView::Intercept(true)),
                spec,
                kind,
                id,
            };
            let slope_inner = ExprView::Sum(seq![ExprView::Intercept(false), ExprView::Var(v)]);
            let slope = ExprView::Group { inner: Box::new(slope_inner), spec, kind, id };
            assert(is_canonical(ExprView::Intercept(true)));
            assert(is_canonical(one));
            assert(is_canonical(ExprView::Intercept(false)));
            assert(is_canonical(ExprView::Var(v)));
            let parts = seq![ExprView::Intercept(false), ExprView::Var(v)];
            assert forall|i: int| 0 <= i < parts.len() implies is_canonical(#[trigger] parts[i])
                && !(parts[i] is Sum) by {
                if i == 0 {
                    assert(parts[i] == ExprView::Intercept(false));
                } else {
                    assert(parts[i] == ExprView::Var(v));
                }
            }
            assert(all_canonical(parts));
            assert(is_canonical(slope_inner));
            assert(is_canonical(slope));
            let both = seq![one, slope];
            assert(group_result(inner, spec, kind, id) == ExprView::Sum(both));
            assert forall|i: int| 0 <= i < both.len() implies is_canonical(#[trigger] both[i])
                && !(both[i] is Sum) by {
                if i == 0 {
                    assert(both[i] == one);
                } else {
                    assert(both[i] == slope);
                }
            }
            assert(all_canonical(both));
        },
        _ => {},
    }
}

/// The canonical form of an expression is in canonical form.
pub proof fn lemma_canon_is_canonical(e: ExprView)
    ensures
        is_canonical(canon(e)),
    decreases e, 1nat,
{
    match e {
        ExprView::Prod(ts) => {
            if ts.len() == 0 {
            } else if ts.len() == 1 {
                lemma_canon_is_canonical(ts[0]);
            } else {
                lemma_canon_each_canonical(ts);
                let cs = canon_each(ts);
                lemma_crossings_canonical(cs, cs.len());
                let all = cs + crossings(cs, cs.len());
                assert forall|i: int| 0 <= i < all.len() implies is_canonical(#[trigger] all[i]) by {
                    if i < cs.len() {
                        assert(all[i] == cs[i]);
                    } else {
                        assert(all[i] == crossings(cs, cs.len())[i - cs.len()]);
                    }
                }
                lemma_flat_sum(all);
            }
        },
        ExprView::Nest { outer, inner, kind } => {
            lemma_canon_is_canonical(*outer);
            lemma_canon_is_canonical(*inner);
            let o = canon(*outer);
            let i = canon(*inner);
            match kind {
                crate::ast::NestKind::Slash => {
                    let pair = seq![o, i];
                    assert(all_canonical(pair));
                    lemma_flat_interaction(pair);
                    let crossing = interaction_result(splice_interactions(pair));
                    let terms = seq![o, crossing];
                    assert(all_canonical(terms));
                    lemma_flat_sum(terms);
                },
                crate::ast::NestKind::In => {},
            }
        },
        ExprView::Sum(ts) => {
            lemma_canon_each_canonical(ts);
            lemma_flat_sum(canon_each(ts));
        },
        ExprView::Interaction(ts) => {
            lemma_canon_each_canonical(ts);
            lemma_flat_interaction(canon_each(ts));
        },
        ExprView::Pow { base, exp } => {
            lemma_canon_is_canonical(*base);
            lemma_canon_is_canonical(*exp);
        },
        ExprView::Group { inner, spec, kind, id } => {
            lemma_canon_is_canonical(*inner);
            lemma_canon_spec_canonical(spec);
            lemma_group_result_canonical(canon(*inner), canon_group_spec(spec), kind, id);
        },
        ExprView::Smooth { kind, vars, args } => {
            lemma_canon_named_canonical(args);
        },
        ExprView::Func { name, args } => {
            lemma_canon_each_canonical(args);
        },
        ExprView::Identity(inner) => {
            lemma_canon_is_canonical(*inner);
        },
        _ => {},
    }
}

proof fn lemma_canon_each_canonical(ts: Seq<ExprView>)
    ensures
        all_canonical(canon_each(ts)),
    decreases ts, 0nat,
{
    assert forall|i: int| 0 <= i < canon_each(ts).len() implies is_canonical(
        #[trigger] canon_each(ts)[i],
    ) by {
        lemma_canon_is_canonical(ts[i]);
    }
}

proof fn lemma_canon_named_canonical(args: Seq<(Text, ExprView)>)
    ensures
        all_canonical_named(canon_named(args)),
    decreases args, 0nat,
{
    assert forall|i: int| 0 <= i < canon_named(args).len() implies is_canonical(
        (#[trigger] canon_named(args)[i]).1,
    ) by {
        lemma_canon_is_canonical(args[i].1);
    }
}

proof fn lemma_canon_spec_canonical(g: GroupSpecView)
    ensures
        is_canonical_spec(canon_group_spec(g)),
    decreases g, 0nat,
{
    match g {
        GroupSpecView::Func { name, args } => {
            lemma_canon_each_canonical(args);
        },
        _ => {},
    }
}

proof fn lemma_splice_sums_same(ts: Seq<ExprView>)
    requires
        forall|i: int| 0 <= i < ts.len() ==> !(#[trigger] ts[i] is Sum),
    ensures
        splice_sums(ts) == ts,
    decreases ts.len(),
{
    if ts.len() > 0 {
        let init = ts.drop_last();
        assert forall|i: int| 0 <= i < init.len() implies !(#[trigger] init[i] is Sum) by {
            assert(init[i] == ts[i]);
        }
        lemma_splice_sums_same(init);
        assert(!(ts[ts.len() - 1] is Sum));
        assert(splice_sums(ts) =~= ts);
    } else {
        assert(splice_sums(ts) =~= ts);
    }
}

proof fn lemma_splice_interactions_same(ts: Seq<ExprView>)
    requires
        forall|i: int| 0 <= i < ts.len() ==> !(#[trigger] ts[i] is Interaction),
    ensures
        splice_interactions(ts) == ts,
    decreases ts.len(),
{
    if ts.len() > 0 {
        let init = ts.drop_last();
        assert forall|i: int| 0 <= i < init.len() implies !(#[trigger] init[i] is Interaction) by {
            assert(init[i] == ts[i]);
        }
        lemma_splice_interactions_same(init);
        assert(!(ts[ts.len() - 1] is Interaction));
        assert(splice_interactions(ts) =~= ts);
    } else {
        assert(splice_interactions(ts) =~= ts);
    }
}

/// An expression in canonical form is its own canonical form.
pub proof fn lemma_canonical_is_fixed(e: ExprView)
    requires
        is_canonical(e),
    ensures
        canon(e) == e,
    decreases e, 1nat,
{
    match e {
        ExprView::Sum(ts) => {
            lemma_canonical_each_fixed(ts);
            lemma_splice_sums_same(ts);
        },
        ExprView::Interaction(ts) => {
            lemma_canonical_each_fixed(ts);
            lemma_splice_interactions_same(ts);
        },
        ExprView::Nest { outer, inner, kind } => {
            lemma_canonical_is_fixed(*outer);
            lemma_canonical_is_fixed(*inner);
        },
        ExprView::Pow { base, exp } => {
            lemma_canonical_is_fixed(*base);
            lemma_canonical_is_fixed(*exp);
        },
        ExprView::Group { inner, spec, kind, id } => {
            lemma_canonical_is_fixed(*inner);
            lemma_canonical_spec_fixed(spec);
        },
        ExprView::Smooth { kind, vars, args } => {
            lemma_canonical_named_fixed(args);
        },
        ExprView::Func { name, args } => {
            lemma_canonical_each_fixed(args);
        },
        ExprView::Identity(inner) => {
            lemma_canonical_is_fixed(*inner);
        },
        _ => {},
    }
}

proof fn lemma_canonical_each_fixed(ts: Seq<ExprView>)
    requires
        all_canonical(ts),
    ensures
        canon_each(ts) == ts,
    decreases ts, 0nat,
{
    assert forall|i: int| 0 <= i < ts.len() implies canon_each(ts)[i] == ts[i] by {
        assert(is_canonical(ts[i]));
        lemma_canonical_is_fixed(ts[i]);
    }
    assert(canon_each(ts) =~= ts);
}

proof fn lemma_canonical_named_fixed(args: Seq<(Text, ExprView)>)
    requires
        all_canonical_named(args),
    ensures
        canon_named(args) == args,
    decreases args, 0nat,
{
    assert forall|i: int| 0 <= i < args.len() implies canon_named(args)[i] == args[i] by {
        assert(is_canonical(args[i].1));
        lemma_canonical_is_fixed(args[i].1);
    }
    assert(canon_named(args) =~= args);
}

proof fn lemma_canonical_spec_fixed(g: GroupSpecView)
    requires
        is_canonical_spec(g),
    ensures
        canon_group_spec(g) == g,
    decreases g, 0nat,
{
    match g {
        GroupSpecView::Func { name, args } => {
            lemma_canonical_each_fixed(args);
        },
        _ => {},
    }
}

/// Canonicalization of expressions is idempotent: the canonical form of a
/// canonical form is that canonical form, and so is its text.
pub proof fn canonicalize_expr_is_idempotent(e: ExprView)
    ensures
        is_canonical(canon(e)),
        canon(canon(e)) == canon(e),
        crate::pretty::expr_text(canon(canon(e))) == crate::pretty::expr_text(canon(e)),
{
    lemma_canon_is_canonical(e);
    lemma_canonical_is_fixed(canon(e));
}

/// The canonical lists of two expressions.
proof fn lemma_canon_pair(a: ExprView, b: ExprView)
    ensures
        canon_each(seq![a, b]) == seq![canon(a), canon(b)],
{
    assert(canon_each(seq![a, b]) =~= seq![canon(a), canon(b)]);
}

/// The one way to choose both of two things.
proof fn lemma_choose_both()
    ensures
        combinations(0, 2, 2) == seq![seq![0int, 1int]],
{
    reveal_with_fuel(combinations, 3);
    let with = combinations(1, 2, 1);
    assert(with =~= seq![seq![1int]]);
    assert(combinations(1, 2, 2) =~= Seq::<Seq<int>>::empty());
    let first = Seq::new(with.len(), |j: int| seq![0int] + with[j]);
    assert(first =~= seq![seq![0int, 1int]]) by {
        assert(first[0] =~= seq![0int, 1int]);
    }
    assert(combinations(0, 2, 2) =~= seq![seq![0int, 1int]]);
}

/// The crossing of two canonical factors.
proof fn lemma_crossings_of_two(x: ExprView, y: ExprView)
    ensures
        crossings(seq![x, y], 2) == seq![interaction_result(splice_interactions(seq![x, y]))],
{
    let cs = seq![x, y];
    lemma_choose_both();
    reveal_with_fuel(crossings, 3);
    assert(pick(cs, seq![0int, 1int]) =~= cs);
    assert(crossings_of_size(cs, 2) =~= seq![
        interaction_result(splice_interactions(pick(cs, seq![0int, 1int]))),
    ]);
    assert(crossings(cs, 1) =~= Seq::<ExprView>::empty());
    assert(crossings(cs, 2) =~= seq![interaction_result(splice_interactions(cs))]);
}

/// A product of two factors is the sum of the factors and of their
/// interaction: `a*b` and `a + b + a:b` have one canonical form.
pub proof fn product_is_sum_with_interaction(a: ExprView, b: ExprView)
    ensures
        canon(ExprView::Prod(seq![a, b])) == canon(
            ExprView::Sum(seq![a, b, ExprView::Interaction(seq![a, b])]),
        ),
{
    let x = canon(a);
    let y = canon(b);
    let crossing = interaction_result(splice_interactions(seq![x, y]));
    lemma_canon_pair(a, b);
    lemma_crossings_of_two(x, y);
    assert(seq![x, y] + seq![crossing] =~= seq![x, y, crossing]);
    assert(canon(ExprView::Interaction(seq![a, b])) == crossing);
    let terms = seq![a, b, ExprView::Interaction(seq![a, b])];
    assert(canon_each(terms) =~= seq![x, y, crossing]);
}

/// A slash is the sum of the outer part and of the interaction of both
/// parts: `a/b` and `a + a:b` have one canonical form.
pub proof fn slash_is_sum_with_interaction(a: ExprView, b: ExprView)
    ensures
        canon(
            ExprView::Nest {
                outer: Box::new(a),
                inner: Box::new(b),
                kind: crate::ast::NestKind::Slash,
            },
        ) == canon(ExprView::Sum(seq![a, ExprView::Interaction(seq![a, b])])),
{
    let x = canon(a);
    let y = canon(b);
    let crossing = interaction_result(splice_interactions(seq![x, y]));
    lemma_canon_pair(a, b);
    assert(canon(ExprView::Interaction(seq![a, b])) == crossing);
    let terms = seq![a, ExprView::Interaction(seq![a, b])];
    assert(canon_each(terms) =~= seq![x, crossing]);
}

} // verus!
