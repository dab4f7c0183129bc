//! Sums and interactions of lists of terms: flattening, and the expansion of
//! products and slashes over canonical parts.

use crate::ast::{copy_expr, copy_exprs, exprs_view, push_expr, Expr, ExprView};
use crate::subsets::{combinations, get_combinations, index_lists};
use vstd::prelude::*;

verus! {

/// The sum of a list of terms: zero for none, the term itself for one.
pub open spec fn sum_result(ts: Seq<ExprView>) -> ExprView {
    if ts.len() == 0 {
        ExprView::Intercept(false)
    } else if ts.len() == 1 {
        ts[0]
    } else {
        ExprView::Sum(ts)
    }
}

/// The interaction of a list of factors: one for none, the factor itself for
/// one.
pub open spec fn interaction_result(ts: Seq<ExprView>) -> ExprView {
    if ts.len() == 0 {
        ExprView::Intercept(true)
    } else if ts.len() == 1 {
        ts[0]
    } else {
        ExprView::Interaction(ts)
    }
}

/// The list in which each sum is replaced by its terms.
pub open spec fn splice_sums(ts: Seq<ExprView>) -> Seq<ExprView>
    decreases ts.len(),
{
    if ts.len() == 0 {
        Seq::empty()
    } else {
        splice_sums(ts.drop_last()) + (match ts.last() {
            ExprView::Sum(xs) => xs,
            t => seq![t],
        })
    }
}

/// The list in which each interaction is replaced by its factors.
pub open spec fn splice_interactions(ts: Seq<ExprView>) -> Seq<ExprView>
    decreases ts.len(),
{
    if ts.len() == 0 {
        Seq::empty()
    } else {
        splice_interactions(ts.drop_last()) + (match ts.last() {
            ExprView::Interaction(xs) => xs,
            t => seq![t],
        })
    }
}

/// The factors of `cs` at the given indices.
pub open spec fn pick(cs: Seq<ExprView>, indices: Seq<int>) -> Seq<ExprView> {
    Seq::new(indices.len(), |j: int| cs[indices[j]])
}

/// The interactions of every choice of `k` factors.
pub open spec fn crossings_of_size(cs: Seq<ExprView>, k: nat) -> Seq<ExprView> {
    let choices = combinations(0, cs.len() as int, k);
    Seq::new(
        choices.len(),
        |j: int| interaction_result(splice_interactions(pick(cs, choices[j]))),
    )
}

/// The interactions of every choice of two to `k` factors, the smaller
/// choices first.
pub open spec fn crossings(cs: Seq<ExprView>, k: nat) -> Seq<ExprView>
    decreases k,
{
    if k < 2 {
        Seq::empty()
    } else {
        crossings(cs, (k - 1) as nat) + crossings_of_size(cs, k)
    }
}

/// The sum of a list of terms.
pub fn flatten_sum_result(terms: Vec<Expr>) -> (r: Expr)
    ensures
        r@ == sum_result(exprs_view(terms@)),
{
    let mut terms = terms;
    if terms.len() == 0 {
        Expr::Intercept(false)
    } else if terms.len() == 1 {
        let only = terms.pop();
        match only {
            Some(t) => t,
            None => Expr::Intercept(false),
        }
    } else {
        Expr::Sum(terms)
    }
}

/// The interaction of a list of factors.
pub fn flatten_interaction_result(terms: Vec<Expr>) -> (r: Expr)
    ensures
        r@ == interaction_result(exprs_view(terms@)),
{
    let mut terms = terms;
    if terms.len() == 0 {
        Expr::Intercept(true)
    } else if terms.len() == 1 {
        let only = terms.pop();
        match only {
            Some(t) => t,
            None => Expr::Intercept(true),
        }
    } else {
        Expr::Interaction(terms)
    }
}

/// Replaces each sum of a list by its terms.
pub fn flatten_sum(terms: &Vec<Expr>) -> (r: Vec<Expr>)
    ensures
        exprs_view(r@) == splice_sums(exprs_view(terms@)),
{
    let mut out: Vec<Expr> = Vec::new();
    let mut i: usize = 0;
    assert(exprs_view(out@) =~= Seq::<ExprView>::empty());
    while i < terms.len()
        invariant
            i <= terms.len(),
            exprs_view(out@) == splice_sums(exprs_view(terms@).take(i as int)),
        decreases terms.len() - i,
    {
        let ghost all = exprs_view(terms@);
        proof {
            assert(all.take(i + 1).drop_last() =~= all.take(i as int));
            assert(all.take(i + 1).last() == all[i as int]);
        }
        match &terms[i] {
            Expr::Sum(xs) => {
                let ghost before = exprs_view(out@);
                let mut j: usize = 0;
                while j < xs.len()
                    invariant
                        j <= xs.len(),
                        exprs_view(out@) == before + exprs_view(xs@).take(j as int),
                    decreases xs.len() - j,
                {
                    push_expr(&mut out, copy_expr(&xs[j]));
                    assert(exprs_view(xs@).take(j + 1) =~= exprs_view(xs@).take(j as int).push(
                        xs@[j as int]@,
                    ));
                    assert(exprs_view(out@) =~= before + exprs_view(xs@).take(j + 1));
                    j += 1;
                }
                assert(exprs_view(xs@).take(xs.len() as int) =~= exprs_view(xs@));
            },
            t => {
                let ghost before = exprs_view(out@);
                push_expr(&mut out, copy_expr(t));
                assert(exprs_view(out@) =~= before + seq![t@]);
            },
        }
        i += 1;
    }
    assert(exprs_view(terms@).take(terms.len() as int) =~= exprs_view(terms@));
    out
}

/// Replaces each interaction of a list by its factors.
pub fn flatten_interaction(terms: &Vec<Expr>) -> (r: Vec<Expr>)
    ensures
        exprs_view(r@) == splice_interactions(exprs_view(terms@)),
{
    let mut out: Vec<Expr> = Vec::new();
    let mut i: usize = 0;
    assert(exprs_view(out@) =~= Seq::<ExprView>::empty());
    while i < terms.len()
        invariant
            i <= terms.len(),
            exprs_view(out@) == splice_interactions(exprs_view(terms@).take(i as int)),
        decreases terms.len() - i,
    {
        let ghost all = exprs_view(terms@);
        proof {
            assert(all.take(i + 1).drop_last() =~= all.take(i as int));
            assert(all.take(i + 1).last() == all[i as int]);
        }
        match &terms[i] {
            Expr::Interaction(xs) => {
                let ghost before = exprs_view(out@);
                let mut j: usize = 0;
                while j < xs.len()
                    invariant
                        j <= xs.len(),
                        exprs_view(out@) == before + exprs_view(xs@).take(j as int),
                    decreases xs.len() - j,
                {
                    push_expr(&mut out, copy_expr(&xs[j]));
                    assert(exprs_view(xs@).take(j + 1) =~= exprs_view(xs@).take(j as int).push(
                        xs@[j as int]@,
                    ));
                    assert(exprs_view(out@) =~= before + exprs_view(xs@).take(j + 1));
                    j += 1;
                }
                assert(exprs_view(xs@).take(xs.len() as int) =~= exprs_view(xs@));
            },
            t => {
                let ghost before = exprs_view(out@);
                push_expr(&mut out, copy_expr(t));
                assert(exprs_view(out@) =~= before + seq![t@]);
            },
        }
        i += 1;
    }
    assert(exprs_view(terms@).take(terms.len() as int) =~= exprs_view(terms@));
    out
}

/// The terms of the expansion of a product of canonical factors: the
/// factors, then the interactions of every choice of two or more of them.
pub fn expand_star_terms(factors: &Vec<Expr>) -> (r: Vec<Expr>)
    ensures
        exprs_view(r@) == exprs_view(factors@) + crossings(
            exprs_view(factors@),
            factors@.len(),
        ),
{
    let ghost cs = exprs_view(factors@);
    let mut out = copy_exprs(factors);
    let n = factors.len();
    let mut k: usize = 1;
    assert(exprs_view(out@) =~= cs + crossings(cs, 1));
    while k < n
        invariant
            1 <= k,
            n == factors@.len(),
            cs == exprs_view(factors@),
            k <= n || n == 0,
            exprs_view(out@) == cs + crossings(cs, if n == 0 {
                1
            } else {
                k as nat
            }),
        decreases n - k,
    {
        let size = k + 1;
        let choices = get_combinations(n, size);
        let ghost before = exprs_view(out@);
        let ghost wanted = crossings_of_size(cs, size as nat);
        let mut j: usize = 0;
        while j < choices.len()
            invariant
                j <= choices.len(),
                n == factors@.len(),
                cs == exprs_view(factors@),
                index_lists(choices@) == combinations(0, n as int, size as nat),
                forall|a: int, b: int|
                    0 <= a < choices@.len() && 0 <= b < choices@[a]@.len()
                        ==> #[trigger] choices@[a]@[b] < n,
                wanted == crossings_of_size(cs, size as nat),
                exprs_view(out@) == before + wanted.take(j as int),
            decreases choices.len() - j,
        {
            let choice = &choices[j];
            let mut picked: Vec<Expr> = Vec::new();
            let mut b: usize = 0;
            while b < choice.len()
                invariant
                    b <= choice.len(),
                    n == factors@.len(),
                    forall|c: int| 0 <= c < choice@.len() ==> #[trigger] choice@[c] < n,
                    picked@.len() == b,
                    forall|c: int| 0 <= c < b ==> (#[trigger] picked@[c])@ == factors@[choice@[c] as int]@,
                decreases choice.len() - b,
            {
                picked.push(copy_expr(&factors[choice[b]]));
                b += 1;
            }
            proof {
                let indices = index_lists(choices@)[j as int];
                assert(indices.len() == choice@.len());
                assert(exprs_view(picked@) =~= pick(cs, indices)) by {
                    assert forall|c: int| 0 <= c < picked@.len() implies exprs_view(picked@)[c]
                        == pick(cs, indices)[c] by {
                        assert(indices[c] == choice@[c] as int);
                    }
                }
            }
            let crossing = flatten_interaction_result(flatten_interaction(&picked));
            push_expr(&mut out, crossing);
            proof {
                assert(wanted.take(j + 1) =~= wanted.take(j as int).push(wanted[j as int]));
                assert(exprs_view(out@) =~= before + wanted.take(j + 1));
            }
            j += 1;
        }
        proof {
            assert(wanted.take(choices.len() as int) =~= wanted) by {
                assert(wanted.len() == index_lists(choices@).len());
            }
            assert(crossings(cs, size as nat) == crossings(cs, k as nat) + wanted);
            assert(exprs_view(out@) =~= cs + crossings(cs, size as nat));
        }
        k += 1;
    }
    proof {
        if n == 0 {
            assert(crossings(cs, 0) =~= crossings(cs, 1));
        }
    }
    out
}

/// The expansion `a + a:b` of `a/b`, for canonical `a` and `b`.
pub fn expand_slash(outer: Expr, inner: Expr) -> (r: Expr)
    ensures
        r@ == sum_result(
            splice_sums(
                seq![
                    outer@,
                    interaction_result(splice_interactions(seq![outer@, inner@])),
                ],
            ),
        ),
{
    let mut pair: Vec<Expr> = Vec::new();
    push_expr(&mut pair, copy_expr(&outer));
    push_expr(&mut pair, inner);
    assert(exprs_view(pair@) =~= seq![outer@, inner@]);
    let crossing = flatten_interaction_result(flatten_interaction(&pair));
    let mut terms: Vec<Expr> = Vec::new();
    push_expr(&mut terms, outer);
    push_expr(&mut terms, crossing);
    assert(exprs_view(terms@) =~= seq![outer@, crossing@]);
    flatten_sum_result(flatten_sum(&terms))
}

} // verus!
