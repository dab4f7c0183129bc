//! The canonical form of a model: products and slashes expanded, sums and
//! interactions flattened, group terms normalized, modifiers deduplicated and
//! autocorrelation calls hoisted out of the right-hand side.

use crate::ast::{
    aterms_view, autocors_view, copy_autocors, copy_family, copy_group_spec, copy_option_text,
    copy_texts, dpars_view, exprs_view, named_view, option_expr_view, push_expr, push_named,
    Aterm, AtermView, Dpar, DparView, Expr, ExprView, Formula, FormulaView, GroupKind, GroupSpec,
    GroupSpecView, ModelSpec, ModelSpecView, NestKind, Text,
};
use crate::flat::{
    crossings, expand_slash, expand_star_terms, flatten_interaction, flatten_interaction_result,
    flatten_sum, flatten_sum_result, interaction_result, splice_interactions, splice_sums,
    sum_result,
};
use crate::hoist::{hoist, hoist_autocor};
use vstd::prelude::*;

verus! {

// ---------------------------------------------------------------------------
// What the canonical form is
// ---------------------------------------------------------------------------

/// The canonical form of an expression.
///
/// A product of two or more factors becomes the sum of its factors and of the
/// interactions of every choice of two or more of them; `a/b` becomes
/// `a + a:b`; sums within sums and interactions within interactions are
/// flattened; a group term over a bare variable becomes a random intercept
/// plus a random slope without intercept. Every part of an expression is
/// canonical before the expression itself is rewritten.
pub open spec fn canon(e: ExprView) -> ExprView
    decreases e,
{
    match e {
        ExprView::Prod(ts) => {
            if ts.len() == 0 {
                ExprView::Intercept(true)
            } else if ts.len() == 1 {
                canon(ts[0])
            } else {
                let cs = canon_each(ts);
                sum_result(splice_sums(cs + crossings(cs, cs.len())))
            }
        },
        ExprView::Nest { outer, inner, kind } => {
            let o = canon(*outer);
            let i = canon(*inner);
            match kind {
                NestKind::Slash => sum_result(
                    splice_sums(seq![o, interaction_result(splice_interactions(seq![o, i]))]),
                ),
                NestKind::In => ExprView::Nest { outer: Box::new(o), inner: Box::new(i), kind },
            }
        },
        ExprView::Sum(ts) => sum_result(splice_sums(canon_each(ts))),
        ExprView::Interaction(ts) => interaction_result(splice_interactions(canon_each(ts))),
        ExprView::Pow { base, exp } => ExprView::Pow {
            base: Box::new(canon(*base)),
            exp: Box::new(canon(*exp)),
        },
        ExprView::Group { inner, spec, kind, id } => group_result(
            canon(*inner),
            canon_group_spec(spec),
            kind,
            id,
        ),
        ExprView::Smooth { kind, vars, args } => ExprView::Smooth {
            kind,
            vars,
            args: canon_named(args),
        },
        ExprView::Func { name, args } => ExprView::Func { name, args: canon_each(args) },
        ExprView::Identity(inner) => ExprView::Identity(Box::new(canon(*inner))),
        _ => e,
    }
}

/// The group term over a canonical inner expression and grouping: over a
/// bare variable `v` it is `(1|g) + (0 + v|g)`.
pub open spec fn group_result(
    inner: ExprView,
    spec: GroupSpecView,
    kind: GroupKind,
    id: Option<Text>,
) -> ExprView {
    match inner {
        ExprView::Var(v) => ExprView::Sum(
            seq![
                ExprView::Group { inner: Box::new(ExprView::Intercept(true)), spec, kind, id },
                ExprView::Group {
                    inner: Box::new(
                        ExprView::Sum(seq![ExprView::Intercept(false), ExprView::Var(v)]),
                    ),
                    spec,
                    kind,
                    id,
                },
            ],
        ),
        _ => ExprView::Group { inner: Box::new(inner), spec, kind, id },
    }
}

pub open spec fn canon_each(ts: Seq<ExprView>) -> Seq<ExprView>
    decreases ts,
{
    Seq::new(
        ts.len(),
        |i: int|
            if 0 <= i < ts.len() {
                canon(ts[i])
            } else {
                ExprView::Dot
            },
    )
}

pub open spec fn canon_named(args: Seq<(Text, ExprView)>) -> Seq<(Text, ExprView)>
    decreases args,
{
    Seq::new(
        args.len(),
        |i: int|
            if 0 <= i < args.len() {
                (args[i].0, canon(args[i].1))
            } else {
                (Seq::empty(), ExprView::Dot)
            },
    )
}

pub open spec fn canon_group_spec(g: GroupSpecView) -> GroupSpecView
    decreases g,
{
    match g {
        GroupSpecView::Func { name, args } => GroupSpecView::Func { name, args: canon_each(args) },
        _ => g,
    }
}

pub open spec fn canon_option(o: Option<ExprView>) -> Option<ExprView> {
    match o {
        Some(e) => Some(canon(e)),
        None => None,
    }
}

pub open spec fn canon_aterm(a: AtermView) -> AtermView {
    match a {
        AtermView::Se(e) => AtermView::Se(canon(e)),
        AtermView::Weights(e) => AtermView::Weights(canon(e)),
        AtermView::Trials(e) => AtermView::Trials(canon(e)),
        AtermView::Cens(e) => AtermView::Cens(canon(e)),
        AtermView::Trunc { lb, ub } => AtermView::Trunc {
            lb: canon_option(lb),
            ub: canon_option(ub),
        },
        AtermView::Subset(e) => AtermView::Subset(canon(e)),
        AtermView::Rate(e) => AtermView::Rate(canon(e)),
        AtermView::Thres { gr } => AtermView::Thres { gr: canon_option(gr) },
        AtermView::Dec(e) => AtermView::Dec(canon(e)),
        AtermView::Cat(e) => AtermView::Cat(canon(e)),
        AtermView::Index(e) => AtermView::Index(canon(e)),
        AtermView::VReal(es) => AtermView::VReal(canon_each(es)),
        AtermView::VInt(es) => AtermView::VInt(canon_each(es)),
        AtermView::Mi => AtermView::Mi,
    }
}

/// The kind of a modifier, as a number.
pub open spec fn aterm_tag(a: AtermView) -> int {
    match a {
        AtermView::Se(_) => 0,
        AtermView::Weights(_) => 1,
        AtermView::Trials(_) => 2,
        AtermView::Cens(_) => 3,
        AtermView::Trunc { .. } => 4,
        AtermView::Subset(_) => 5,
        AtermView::Rate(_) => 6,
        AtermView::Thres { .. } => 7,
        AtermView::Dec(_) => 8,
        AtermView::Cat(_) => 9,
        AtermView::Index(_) => 10,
        AtermView::VReal(_) => 11,
        AtermView::VInt(_) => 12,
        AtermView::Mi => 13,
    }
}

pub open spec fn has_tag(ts: Seq<AtermView>, tag: int) -> bool {
    exists|j: int| 0 <= j < ts.len() && aterm_tag(#[trigger] ts[j]) == tag
}

/// The canonical modifiers: each one canonical, and of each kind only the
/// first.
pub open spec fn canon_aterms(ts: Seq<AtermView>) -> Seq<AtermView>
    decreases ts.len(),
{
    if ts.len() == 0 {
        Seq::empty()
    } else {
        let kept = canon_aterms(ts.drop_last());
        let last = canon_aterm(ts.last());
        if has_tag(kept, aterm_tag(last)) {
            kept
        } else {
            kept.push(last)
        }
    }
}

pub open spec fn canon_dpars(ds: Seq<DparView>) -> Seq<DparView> {
    Seq::new(ds.len(), |i: int| DparView { name: ds[i].name, rhs: canon(ds[i].rhs) })
}

/// The canonical form of a model: the right-hand side canonical and without
/// autocorrelation calls, which follow the model's own autocorrelation terms;
/// the right-hand side of each distributional parameter canonical; the
/// modifiers canonical and deduplicated. Header and response stay.
///
/// The right-hand side is made canonical, its autocorrelation calls are taken
/// out, and what is left is made canonical once more.
pub open spec fn canon_model(m: ModelSpecView) -> ModelSpecView {
    let h = hoist(canon(m.formula.rhs));
    ModelSpecView {
        family: m.family,
        link: m.link,
        formula: FormulaView {
            lhs: m.formula.lhs,
            rhs: canon(h.0),
            aterms: canon_aterms(m.formula.aterms),
        },
        dpars: canon_dpars(m.dpars),
        autocor: m.autocor + h.1,
    }
}

// ---------------------------------------------------------------------------
// Computing it
// ---------------------------------------------------------------------------

/// The canonical form of an expression.
pub fn canonicalize_expr(expr: Expr) -> (r: Expr)
    ensures
        r@ == canon(expr@),
{
    canon_expr(&expr)
}

fn canon_expr(e: &Expr) -> (r: Expr)
    ensures
        r@ == canon(e@),
    decreases e, 1nat,
{
    match e {
        Expr::Prod(ts) => canon_product(ts),
        Expr::Nest { outer, inner, kind } => {
            let o = canon_expr(outer);
            let i = canon_expr(inner);
            match kind {
                NestKind::Slash => expand_slash(o, i),
                NestKind::In => Expr::Nest {
                    outer: Box::new(o),
                    inner: Box::new(i),
                    kind: NestKind::In,
                },
            }
        },
        Expr::Sum(ts) => {
            let terms = canon_list(ts);
            flatten_sum_result(flatten_sum(&terms))
        },
        Expr::Interaction(ts) => {
            let terms = canon_list(ts);
            flatten_interaction_result(flatten_interaction(&terms))
        },
        Expr::Pow { base, exp } => Expr::Pow {
            base: Box::new(canon_expr(base)),
            exp: Box::new(canon_expr(exp)),
        },
        Expr::Group { inner, spec, kind, id } => {
            let canonical_inner = canon_expr(inner);
            let canonical_spec = canonicalize_group_spec(spec);
            group_of(canonical_inner, canonical_spec, *kind, copy_option_text(id))
        },
        Expr::Smooth { kind, vars, args } => Expr::Smooth {
            kind: *kind,
            vars: copy_texts(vars),
            args: canon_named_list(args),
        },
        Expr::Func { name, args } => Expr::Func { name: name.clone(), args: canon_list(args) },
        Expr::Identity(inner) => Expr::Identity(Box::new(canon_expr(inner))),
        Expr::Num(n) => Expr::Num(n.clone()),
        Expr::Bool(b) => Expr::Bool(*b),
        Expr::Str(t) => Expr::Str(t.clone()),
        Expr::Var(v) => Expr::Var(v.clone()),
        Expr::Intercept(b) => Expr::Intercept(*b),
        Expr::Dot => Expr::Dot,
    }
}

proof fn lemma_canon_product(v: Seq<ExprView>)
    ensures
        canon(ExprView::Prod(v)) == if v.len() == 0 {
            ExprView::Intercept(true)
        } else if v.len() == 1 {
            canon(v[0])
        } else {
            sum_result(splice_sums(canon_each(v) + crossings(canon_each(v), v.len())))
        },
{
    assert(canon_each(v).len() == v.len());
}

fn canon_product(ts: &Vec<Expr>) -> (r: Expr)
    ensures
        r@ == canon(ExprView::Prod(exprs_view(ts@))),
    decreases ts, 1nat,
{
    let ghost v = exprs_view(ts@);
    proof {
        assert(v.len() == ts@.len());
        lemma_canon_product(v);
    }
    if ts.len() == 0 {
        Expr::Intercept(true)
    } else if ts.len() == 1 {
        proof {
            assert(decreases_to!(*ts => ts[0]));
            assert(v[0] == ts@[0]@);
        }
        canon_expr(&ts[0])
    } else {
        let factors = canon_list(ts);
        let ghost cs = canon_each(v);
        assert(factors@.len() == cs.len()) by {
            assert(exprs_view(factors@).len() == factors@.len());
        }
        let terms = expand_star_terms(&factors);
        let flat = flatten_sum(&terms);
        flatten_sum_result(flat)
    }
}

fn canon_list(ts: &Vec<Expr>) -> (r: Vec<Expr>)
    ensures
        exprs_view(r@) == canon_each(exprs_view(ts@)),
    decreases ts, 0nat,
{
    let mut out: Vec<Expr> = Vec::new();
    let mut i: usize = 0;
    assert(exprs_view(out@) =~= canon_each(exprs_view(ts@)).take(0));
    while i < ts.len()
        invariant
            i <= ts.len(),
            exprs_view(out@) == canon_each(exprs_view(ts@)).take(i as int),
        decreases ts.len() - i,
    {
        proof {
            assert(decreases_to!(*ts => ts[i as int]));
        }
        push_expr(&mut out, canon_expr(&ts[i]));
        proof {
            let all = canon_each(exprs_view(ts@));
            assert(all.take(i + 1) =~= all.take(i as int).push(all[i as int]));
        }
        i += 1;
    }
    assert(canon_each(exprs_view(ts@)).take(ts.len() as int) =~= canon_each(exprs_view(ts@)));
    out
}

fn canon_named_list(args: &Vec<(String, Expr)>) -> (r: Vec<(String, Expr)>)
    ensures
        named_view(r@) == canon_named(named_view(args@)),
    decreases args, 0nat,
{
    let mut out: Vec<(String, Expr)> = Vec::new();
    let mut i: usize = 0;
    assert(named_view(out@) =~= canon_named(named_view(args@)).take(0));
    while i < args.len()
        invariant
            i <= args.len(),
            named_view(out@) == canon_named(named_view(args@)).take(i as int),
        decreases args.len() - i,
    {
        proof {
            assert(decreases_to!(*args => args[i as int]));
            assert(decreases_to!(args[i as int] => args[i as int].1));
        }
        let value = canon_expr(&args[i].1);
        push_named(&mut out, args[i].0.clone(), value);
        proof {
            let all = canon_named(named_view(args@));
            assert(all.take(i + 1) =~= all.take(i as int).push(all[i as int]));
        }
        i += 1;
    }
    assert(canon_named(named_view(args@)).take(args.len() as int) =~= canon_named(
        named_view(args@),
    ));
    out
}

/// The canonical form of a grouping.
fn canonicalize_group_spec(spec: &GroupSpec) -> (r: GroupSpec)
    ensures
        r@ == canon_group_spec(spec@),
    decreases spec, 0nat,
{
    match spec {
        GroupSpec::Func { name, args } => GroupSpec::Func {
            name: name.clone(),
            args: canon_list(args),
        },
        other => copy_group_spec(other),
    }
}

/// The canonical form of the group term of the given parts.
pub fn canonicalize_group_expr(
    inner: Expr,
    spec: GroupSpec,
    kind: GroupKind,
    id: Option<String>,
) -> (r: Expr)
    ensures
        r@ == canon(
            ExprView::Group {
                inner: Box::new(inner@),
                spec: spec@,
                kind,
                id: crate::ast::option_text(id),
            },
        ),
{
    let term = Expr::Group { inner: Box::new(inner), spec, kind, id };
    canon_expr(&term)
}

/// The group term over a canonical inner expression and grouping.
fn group_of(inner: Expr, spec: GroupSpec, kind: GroupKind, id: Option<String>) -> (r: Expr)
    ensures
        r@ == group_result(inner@, spec@, kind, crate::ast::option_text(id)),
{
    match inner {
        Expr::Var(name) => {
            let random_intercept = Expr::Group {
                inner: Box::new(Expr::Intercept(true)),
                spec: copy_group_spec(&spec),
                kind,
                id: copy_option_text(&id),
            };
            let mut slope: Vec<Expr> = Vec::new();
            push_expr(&mut slope, Expr::Intercept(false));
            push_expr(&mut slope, Expr::Var(name));
            assert(exprs_view(slope@) =~= seq![ExprView::Intercept(false), ExprView::Var(name@)]);
            let slope_sum = Expr::Sum(slope);
            assert(slope_sum@ == ExprView::Sum(
                seq![ExprView::Intercept(false), ExprView::Var(name@)],
            ));
            let ghost by = spec@;
            let ghost tag = crate::ast::option_text(id);
            assert(Expr::Intercept(true)@ == ExprView::Intercept(true));
            assert(random_intercept@ == ExprView::Group {
                inner: Box::new(ExprView::Intercept(true)),
                spec: by,
                kind,
                id: tag,
            });
            let random_slope = Expr::Group { inner: Box::new(slope_sum), spec, kind, id };
            assert(random_slope@ == ExprView::Group {
                inner: Box::new(slope_sum@),
                spec: by,
                kind,
                id: tag,
            });
            let mut both: Vec<Expr> = Vec::new();
            push_expr(&mut both, random_intercept);
            push_expr(&mut both, random_slope);
            assert(exprs_view(both@) =~= seq![random_intercept@, random_slope@]);
            Expr::Sum(both)
        },
        other => Expr::Group { inner: Box::new(other), spec, kind, id },
    }
}

fn canon_option_expr(o: &Option<Expr>) -> (r: Option<Expr>)
    ensures
        option_expr_view(r) == canon_option(option_expr_view(*o)),
{
    match o {
        Some(e) => Some(canon_expr(e)),
        None => None,
    }
}

fn canonicalize_aterm(aterm: &Aterm) -> (r: Aterm)
    ensures
        r@ == canon_aterm(aterm@),
{
    match aterm {
        Aterm::Se(e) => Aterm::Se(canon_expr(e)),
        Aterm::Weights(e) => Aterm::Weights(canon_expr(e)),
        Aterm::Trials(e) => Aterm::Trials(canon_expr(e)),
        Aterm::Cens(e) => Aterm::Cens(canon_expr(e)),
        Aterm::Trunc { lb, ub } => Aterm::Trunc {
            lb: canon_option_expr(lb),
            ub: canon_option_expr(ub),
        },
        Aterm::Subset(e) => Aterm::Subset(canon_expr(e)),
        Aterm::Rate(e) => Aterm::Rate(canon_expr(e)),
        Aterm::Thres { gr } => Aterm::Thres { gr: canon_option_expr(gr) },
        Aterm::Dec(e) => Aterm::Dec(canon_expr(e)),
        Aterm::Cat(e) => Aterm::Cat(canon_expr(e)),
        Aterm::Index(e) => Aterm::Index(canon_expr(e)),
        Aterm::VReal(es) => Aterm::VReal(canon_list(es)),
        Aterm::VInt(es) => Aterm::VInt(canon_list(es)),
        Aterm::Mi => Aterm::Mi,
    }
}

fn tag_of(aterm: &Aterm) -> (r: u8)
    ensures
        r as int == aterm_tag(aterm@),
{
    match aterm {
        Aterm::Se(_) => 0,
        Aterm::Weights(_) => 1,
        Aterm::Trials(_) => 2,
        Aterm::Cens(_) => 3,
        Aterm::Trunc { .. } => 4,
        Aterm::Subset(_) => 5,
        Aterm::Rate(_) => 6,
        Aterm::Thres { .. } => 7,
        Aterm::Dec(_) => 8,
        Aterm::Cat(_) => 9,
        Aterm::Index(_) => 10,
        Aterm::VReal(_) => 11,
        Aterm::VInt(_) => 12,
        Aterm::Mi => 13,
    }
}

/// The canonical modifiers.
pub fn canonicalize_aterms(aterms: &Vec<Aterm>) -> (r: Vec<Aterm>)
    ensures
        aterms_view(r@) == canon_aterms(aterms_view(aterms@)),
{
    let mut out: Vec<Aterm> = Vec::new();
    let mut i: usize = 0;
    assert(aterms_view(out@) =~= canon_aterms(aterms_view(aterms@).take(0)));
    while i < aterms.len()
        invariant
            i <= aterms.len(),
            aterms_view(out@) == canon_aterms(aterms_view(aterms@).take(i as int)),
        decreases aterms.len() - i,
    {
        let ghost all = aterms_view(aterms@);
        proof {
            assert(all.take(i + 1).drop_last() =~= all.take(i as int));
            assert(all.take(i + 1).last() == all[i as int]);
        }
        let canonical = canonicalize_aterm(&aterms[i]);
        let tag = tag_of(&canonical);
        let mut seen = false;
        let mut j: usize = 0;
        while j < out.len()
            invariant
                j <= out.len(),
                seen == has_tag(aterms_view(out@).take(j as int), tag as int),
            decreases out.len() - j,
        {
            let ghost kept = aterms_view(out@);
            if tag_of(&out[j]) == tag {
                seen = true;
                assert(kept.take(j + 1)[j as int] == kept[j as int]);
            } else {
                proof {
                    if has_tag(kept.take(j + 1), tag as int) {
                        let w = choose|w: int|
                            0 <= w < kept.take(j + 1).len() && aterm_tag(
                                #[trigger] kept.take(j + 1)[w],
                            ) == tag as int;
                        assert(kept.take(j as int)[w] == kept.take(j + 1)[w]);
                    }
                    if has_tag(kept.take(j as int), tag as int) {
                        let w = choose|w: int|
                            0 <= w < kept.take(j as int).len() && aterm_tag(
                                #[trigger] kept.take(j as int)[w],
                            ) == tag as int;
                        assert(kept.take(j + 1)[w] == kept.take(j as int)[w]);
                    }
                }
            }
            j += 1;
        }
        assert(aterms_view(out@).take(out.len() as int) =~= aterms_view(out@));
        if !seen {
            let ghost before = aterms_view(out@);
            out.push(canonical);
            assert(aterms_view(out@) =~= before.push(canonical@));
        }
        i += 1;
    }
    assert(aterms_view(aterms@).take(aterms.len() as int) =~= aterms_view(aterms@));
    out
}

/// The canonical form of a model. Where every list of named arguments of
/// the model holds each name once, so does every list of its canonical form.
pub fn canonicalize(spec: &ModelSpec) -> (r: ModelSpec)
    ensures
        r@ == canon_model(spec@),
        crate::named_model::well_named_model(spec@) ==> crate::named_model::well_named_model(r@),
{
    proof {
        if crate::named_model::well_named_model(spec@) {
            crate::named_canon::canonical_model_is_well_named(spec@);
        }
    }
    let canonical_rhs = canon_expr(&spec.formula.rhs);
    let mut dpars: Vec<Dpar> = Vec::new();
    let mut i: usize = 0;
    assert(dpars_view(dpars@) =~= canon_dpars(dpars_view(spec.dpars@)).take(0));
    while i < spec.dpars.len()
        invariant
            i <= spec.dpars.len(),
            dpars_view(dpars@) == canon_dpars(dpars_view(spec.dpars@)).take(i as int),
        decreases spec.dpars.len() - i,
    {
        let ghost before = dpars_view(dpars@);
        let d = Dpar { name: spec.dpars[i].name.clone(), rhs: canon_expr(&spec.dpars[i].rhs) };
        dpars.push(d);
        proof {
            let all = canon_dpars(dpars_view(spec.dpars@));
            assert(dpars_view(dpars@) =~= before.push(d@));
            assert(all.take(i + 1) =~= all.take(i as int).push(all[i as int]));
        }
        i += 1;
    }
    assert(canon_dpars(dpars_view(spec.dpars@)).take(spec.dpars.len() as int) =~= canon_dpars(
        dpars_view(spec.dpars@),
    ));
    let aterms = canonicalize_aterms(&spec.formula.aterms);
    let (left, hoisted) = hoist_autocor(&canonical_rhs);
    let rhs = canon_expr(&left);
    let mut autocor = copy_autocors(&spec.autocor);
    let mut hoisted = hoisted;
    let ghost own = autocor@;
    let ghost extra = hoisted@;
    autocor.append(&mut hoisted);
    assert(autocors_view(autocor@) =~= autocors_view(own) + autocors_view(extra)) by {
        assert(autocor@ =~= own + extra);
    }
    ModelSpec {
        family: match &spec.family {
            Some(f) => Some(copy_family(f)),
            None => None,
        },
        link: match &spec.link {
            Some(l) => Some(l.clone()),
            None => None,
        },
        formula: Formula { lhs: spec.formula.lhs.clone(), rhs, aterms },
        dpars,
        autocor,
    }
}

} // verus!
