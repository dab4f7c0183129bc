//! Every model that is read from a text holds each name once in each of its
//! lists of named arguments.

use crate::ast::{
    AtermView, AutocorView, DparView, ExprView, FamilyView, LinkView, ModelSpecView, ResponseView,
    Text,
};
use crate::formula::{
    aterm_at, aterms_rest, bare_aterm_at, bound_at, closing_at, dpar_at, families_rest, family_at,
    full_form, header_at, link_part_at, list_call_at, member_at, mixture_at, model_at, response_at,
    response_basic_at, rhs_only_form, surv_at, tail_at, trunc_at, thres_at, unary_at,
};
use crate::grammar::{autocor_at, dpar_head_at, expr_at, first_of, padded_char_at};
use crate::lex::{has, skip_space, within};
use crate::named::{
    all_well_named, arguments_read_are_well_named, autocor_read_is_well_named,
    expression_read_is_well_named, good, well_named, well_named_terms,
};
use vstd::prelude::*;

verus! {

/// Whether the expression, if there is one, is well named.
pub open spec fn well_named_option(o: Option<ExprView>) -> bool {
    o matches Some(e) ==> well_named(e)
}

/// Whether the expressions of a modifier are well named.
pub open spec fn well_named_aterm(a: AtermView) -> bool {
    match a {
        AtermView::Se(e) => well_named(e),
        AtermView::Weights(e) => well_named(e),
        AtermView::Trials(e) => well_named(e),
        AtermView::Cens(e) => well_named(e),
        AtermView::Trunc { lb, ub } => well_named_option(lb) && well_named_option(ub),
        AtermView::Subset(e) => well_named(e),
        AtermView::Rate(e) => well_named(e),
        AtermView::Thres { gr } => well_named_option(gr),
        AtermView::Dec(e) => well_named(e),
        AtermView::Cat(e) => well_named(e),
        AtermView::Index(e) => well_named(e),
        AtermView::VReal(es) => all_well_named(es),
        AtermView::VInt(es) => all_well_named(es),
        AtermView::Mi => true,
    }
}

/// Whether the expressions of every modifier of a list are well named.
pub open spec fn well_named_aterms(ts: Seq<AtermView>) -> bool {
    forall|i: int| 0 <= i < ts.len() ==> well_named_aterm(#[trigger] ts[i])
}

/// Whether the expressions of a response are well named.
pub open spec fn well_named_response(r: ResponseView) -> bool {
    match r {
        ResponseView::Surv { time, event, time2 } => well_named(time) && well_named(event)
            && well_named_option(time2),
        ResponseView::Func { name, args } => all_well_named(args),
        ResponseView::BinomialTrials { successes, trials } => well_named(successes) && well_named(
            trials,
        ),
        _ => true,
    }
}

/// Whether the arguments of a family are well named.
pub open spec fn well_named_family(f: FamilyView) -> bool
    decreases f,
{
    match f {
        FamilyView::Builtin(name, args) => all_well_named(args),
        FamilyView::Mixture(fs) => forall|i: int|
            0 <= i < fs.len() ==> well_named_family(#[trigger] fs[i]),
        FamilyView::Custom { name, dpars } => true,
    }
}

/// Whether the arguments of every family of a list are well named.
pub open spec fn well_named_families(fs: Seq<FamilyView>) -> bool {
    forall|i: int| 0 <= i < fs.len() ==> well_named_family(#[trigger] fs[i])
}

/// Whether the arguments of a link are well named.
pub open spec fn well_named_link(l: LinkView) -> bool {
    match l {
        LinkView::Named(name, args) => all_well_named(args),
    }
}

/// Whether the arguments of the family and of the link of a header are well
/// named.
pub open spec fn well_named_header(h: (FamilyView, Option<LinkView>)) -> bool {
    well_named_family(h.0) && (h.1 matches Some(l) ==> well_named_link(l))
}

/// Whether the right-hand side of every distributional parameter of a list
/// is well named.
pub open spec fn well_named_dpars(ds: Seq<DparView>) -> bool {
    forall|i: int| 0 <= i < ds.len() ==> well_named((#[trigger] ds[i]).rhs)
}

/// Whether every list of named arguments in a model holds each name once:
/// in its header, its response, its modifiers, its right-hand side, its
/// distributional parameters and its autocorrelation terms.
pub open spec fn well_named_model(m: ModelSpecView) -> bool {
    &&& m.family matches Some(f) ==> well_named_family(f)
    &&& m.link matches Some(l) ==> well_named_link(l)
    &&& well_named_response(m.formula.lhs)
    &&& well_named_aterms(m.formula.aterms)
    &&& well_named(m.formula.rhs)
    &&& well_named_dpars(m.dpars)
    &&& well_named_terms(m.autocor)
}

proof fn lemma_unary(s: Seq<char>, pos: int, word: Text)
    ensures
        good(unary_at(s, pos, word)),
{
    expression_read_is_well_named(s, pos + word.len() + 1);
}

proof fn lemma_bound(s: Seq<char>, pos: int, word: Text)
    ensures
        good(bound_at(s, pos, word)),
{
    let start = skip_space(s, pos);
    match padded_char_at(s, start + word.len(), '=') {
        Some(q) => {
            expression_read_is_well_named(s, q);
        },
        None => {},
    }
}

proof fn lemma_list_call(s: Seq<char>, pos: int, word: Text)
    ensures
        list_call_at(s, pos, word) matches Some(r) ==> all_well_named(r.0),
{
    arguments_read_are_well_named(s, pos + word.len() + 1);
}

proof fn lemma_trunc(s: Seq<char>, pos: int)
    ensures
        trunc_at(s, pos) matches Some(r) ==> well_named_aterm(r.0),
{
    let start = pos + "trunc"@.len() + 1;
    lemma_bound(s, start, "lb"@);
    lemma_bound(s, start, "ub"@);
    match bound_at(s, start, "lb"@) {
        Some((_, q)) => {
            lemma_bound(s, q + 1, "ub"@);
        },
        None => {},
    }
}

proof fn lemma_thres(s: Seq<char>, pos: int)
    ensures
        thres_at(s, pos) matches Some(r) ==> well_named_aterm(r.0),
{
    lemma_bound(s, pos + "thres"@.len() + 1, "gr"@);
}

/// Whether the modifier that was read, if any, is well named.
pub open spec fn good_aterm(r: Option<(AtermView, int)>) -> bool {
    r matches Some(x) ==> well_named_aterm(x.0)
}

proof fn lemma_unary_aterm(s: Seq<char>, pos: int, word: Text, tag: int)
    ensures
        good_aterm(crate::formula::unary_aterm_at(s, pos, word, tag)),
{
    lemma_unary(s, pos, word);
}

proof fn lemma_vreal(s: Seq<char>, pos: int)
    ensures
        good_aterm(crate::formula::vreal_at(s, pos)),
{
    lemma_list_call(s, pos, "vreal"@);
}

proof fn lemma_vint(s: Seq<char>, pos: int)
    ensures
        good_aterm(crate::formula::vint_at(s, pos)),
{
    lemma_list_call(s, pos, "vint"@);
}

proof fn lemma_mi(s: Seq<char>, pos: int)
    ensures
        good_aterm(crate::formula::mi_at(s, pos)),
{
}

proof fn lemma_trunc_good(s: Seq<char>, pos: int)
    ensures
        good_aterm(trunc_at(s, pos)),
{
    lemma_trunc(s, pos);
}

proof fn lemma_thres_good(s: Seq<char>, pos: int)
    ensures
        good_aterm(thres_at(s, pos)),
{
    lemma_thres(s, pos);
}

proof fn lemma_late_aterms(s: Seq<char>, pos: int)
    ensures
        good_aterm(
            first_of(
                crate::formula::unary_aterm_at(s, pos, "index"@, 10),
                first_of(
                    crate::formula::vreal_at(s, pos),
                    first_of(crate::formula::vint_at(s, pos), crate::formula::mi_at(s, pos)),
                ),
            ),
        ),
{
    lemma_unary_aterm(s, pos, "index"@, 10);
    lemma_vreal(s, pos);
    lemma_vint(s, pos);
    lemma_mi(s, pos);
}

proof fn lemma_middle_aterms(s: Seq<char>, pos: int, rest: Option<(AtermView, int)>)
    requires
        good_aterm(rest),
    ensures
        good_aterm(
            first_of(
                crate::formula::unary_aterm_at(s, pos, "subset"@, 5),
                first_of(
                    crate::formula::unary_aterm_at(s, pos, "rate"@, 6),
                    first_of(
                        thres_at(s, pos),
                        first_of(
                            crate::formula::unary_aterm_at(s, pos, "dec"@, 8),
                            first_of(crate::formula::unary_aterm_at(s, pos, "cat"@, 9), rest),
                        ),
                    ),
                ),
            ),
        ),
{
    lemma_unary_aterm(s, pos, "subset"@, 5);
    lemma_unary_aterm(s, pos, "rate"@, 6);
    lemma_thres_good(s, pos);
    lemma_unary_aterm(s, pos, "dec"@, 8);
    lemma_unary_aterm(s, pos, "cat"@, 9);
}

proof fn lemma_bare_aterm(s: Seq<char>, pos: int)
    ensures
        bare_aterm_at(s, pos) matches Some(r) ==> well_named_aterm(r.0),
{
    lemma_unary_aterm(s, pos, "se"@, 0);
    lemma_unary_aterm(s, pos, "weights"@, 1);
    lemma_unary_aterm(s, pos, "trials"@, 2);
    lemma_unary_aterm(s, pos, "cens"@, 3);
    lemma_trunc_good(s, pos);
    lemma_late_aterms(s, pos);
    let late = first_of(
        crate::formula::unary_aterm_at(s, pos, "index"@, 10),
        first_of(
            crate::formula::vreal_at(s, pos),
            first_of(crate::formula::vint_at(s, pos), crate::formula::mi_at(s, pos)),
        ),
    );
    lemma_middle_aterms(s, pos, late);
}

proof fn lemma_aterms_rest(s: Seq<char>, pos: int, acc: Seq<AtermView>)
    requires
        well_named_aterms(acc),
    ensures
        well_named_aterms(aterms_rest(s, pos, acc).0),
    decreases s.len() - pos,
{
    if has(s, pos, '|') || has(s, pos, ',') {
        match aterm_at(s, pos + 1) {
            Some((a, q)) => {
                lemma_bare_aterm(s, skip_space(s, pos + 1));
                if within(s, pos + 1, q) {
                    lemma_aterms_rest(s, q, acc.push(a));
                }
            },
            None => {},
        }
    }
}

proof fn lemma_response_basic(s: Seq<char>, pos: int)
    ensures
        response_basic_at(s, pos) matches Some(r) ==> well_named_response(r.0),
{
    arguments_read_are_well_named(s, pos);
    arguments_read_are_well_named(s, pos + "Surv"@.len() + 1);
    match surv_at(s, pos) {
        Some((r, q)) => {
            let args = crate::grammar::args_at(s, pos + "Surv"@.len() + 1).0;
            assert(well_named(args[0]));
            assert(well_named(args[1]));
            if args.len() == 3 {
                assert(well_named(args[2]));
            }
        },
        None => {},
    }
}

proof fn lemma_response(s: Seq<char>, pos: int)
    ensures
        response_at(s, pos) matches Some(r) ==> well_named_response(r.0.0) && well_named_aterms(
            r.0.1,
        ),
{
    let start = skip_space(s, pos);
    lemma_response_basic(s, start);
    match response_basic_at(s, start) {
        Some((base, p)) => {
            let q = skip_space(s, p);
            if has(s, q, '|') {
                match aterm_at(s, q + 1) {
                    Some((a, at)) => {
                        lemma_bare_aterm(s, skip_space(s, q + 1));
                        assert(well_named_aterms(seq![a]));
                        lemma_aterms_rest(s, at, seq![a]);
                        let chain = aterms_rest(s, at, seq![a]).0;
                        if chain.len() == 1 {
                            assert(well_named_aterm(chain[0]));
                        }
                        assert(well_named_aterms(Seq::<AtermView>::empty()));
                    },
                    None => {},
                }
            } else {
                assert(well_named_aterms(Seq::<AtermView>::empty()));
            }
        },
        None => {},
    }
}

proof fn lemma_member(s: Seq<char>, pos: int)
    ensures
        member_at(s, pos) matches Some(r) ==> well_named_family(r.0),
{
    arguments_read_are_well_named(s, skip_space(s, pos));
}

proof fn lemma_families_rest(s: Seq<char>, pos: int, acc: Seq<FamilyView>)
    requires
        well_named_families(acc),
    ensures
        well_named_families(families_rest(s, pos, acc).0),
    decreases s.len() - pos,
{
    if has(s, pos, ',') {
        match member_at(s, pos + 1) {
            Some((f, q)) => {
                lemma_member(s, pos + 1);
                if within(s, pos + 1, q) {
                    lemma_families_rest(s, q, acc.push(f));
                }
            },
            None => {},
        }
    }
}

proof fn lemma_mixture(s: Seq<char>, pos: int)
    ensures
        mixture_at(s, pos) matches Some(r) ==> well_named_family(r.0),
{
    let start = pos + "mixture"@.len() + 1;
    match member_at(s, start) {
        Some((f, p)) => {
            lemma_member(s, start);
            assert(well_named_families(seq![f]));
            lemma_families_rest(s, p, seq![f]);
            let r = families_rest(s, p, seq![f]);
            assert(well_named_family(FamilyView::Mixture(r.0)));
        },
        None => {},
    }
}

proof fn lemma_family(s: Seq<char>, pos: int)
    ensures
        family_at(s, pos) matches Some(r) ==> well_named_family(r.0),
{
    lemma_mixture(s, pos);
    arguments_read_are_well_named(s, pos);
}

proof fn lemma_link_part(s: Seq<char>, pos: int)
    ensures
        link_part_at(s, pos) matches Some(r) ==> well_named_link(r.0),
{
    match padded_char_at(s, pos, ',') {
        Some(q) => {
            match padded_char_at(s, q + "link"@.len(), '=') {
                Some(q2) => {
                    arguments_read_are_well_named(s, q2);
                    assert(all_well_named(Seq::<ExprView>::empty()));
                },
                None => {},
            }
        },
        None => {},
    }
}

proof fn lemma_header(s: Seq<char>, pos: int)
    ensures
        header_at(s, pos) matches Some(r) ==> well_named_header(r.0),
{
    let start = skip_space(s, pos);
    match padded_char_at(s, start + "family"@.len(), '=') {
        Some(p) => {
            lemma_family(s, p);
            match family_at(s, p) {
                Some((family, q)) => {
                    lemma_link_part(s, q);
                },
                None => {},
            }
        },
        None => {},
    }
}

proof fn lemma_dpar(s: Seq<char>, pos: int)
    ensures
        dpar_at(s, pos) matches Some(r) ==> well_named(r.0.rhs),
{
    match dpar_head_at(s, pos) {
        Some((name, p)) => {
            expression_read_is_well_named(s, p);
        },
        None => {},
    }
}

proof fn lemma_tail(s: Seq<char>, pos: int, acc: (Seq<DparView>, Seq<AutocorView>))
    requires
        well_named_dpars(acc.0),
        well_named_terms(acc.1),
    ensures
        well_named_dpars(tail_at(s, pos, acc).0.0),
        well_named_terms(tail_at(s, pos, acc).0.1),
    decreases s.len() - pos,
{
    match padded_char_at(s, pos, '+') {
        Some(q) => {
            if pos < q <= s.len() {
                lemma_dpar(s, q);
                autocor_read_is_well_named(s, q);
                match dpar_at(s, q) {
                    Some((d, p)) => {
                        if within(s, q, p) {
                            lemma_tail(s, p, (acc.0.push(d), acc.1));
                        }
                    },
                    None => match autocor_at(s, q) {
                        Some((a, p)) => {
                            if within(s, q, p) {
                                lemma_tail(s, p, (acc.0, acc.1.push(a)));
                            }
                        },
                        None => {},
                    },
                }
            }
        },
        None => {},
    }
}

proof fn lemma_closing(s: Seq<char>, pos: int)
    ensures
        closing_at(s, pos) matches Some(Some(h)) ==> well_named_header(h.0),
{
    match padded_char_at(s, pos, ',') {
        Some(q) => {
            lemma_header(s, q);
        },
        None => {},
    }
}

proof fn lemma_full_form(s: Seq<char>)
    ensures
        full_form(s) matches Some(m) ==> well_named_model(m),
{
    let leading = header_at(s, 0);
    lemma_header(s, 0);
    let from = crate::formula::behind(leading);
    lemma_response(s, from);
    match response_at(s, from) {
        Some(((lhs, aterms), at)) => {
            if has(s, at, '~') {
                expression_read_is_well_named(s, at + 1);
                match expr_at(s, at + 1) {
                    Some((rhs, end)) => {
                        let none = (Seq::<DparView>::empty(), Seq::<AutocorView>::empty());
                        lemma_tail(s, end, none);
                        lemma_closing(s, tail_at(s, end, none).1);
                    },
                    None => {},
                }
            }
        },
        None => {},
    }
}

proof fn lemma_rhs_only_form(s: Seq<char>)
    ensures
        rhs_only_form(s) matches Some(m) ==> well_named_model(m),
{
    let leading = header_at(s, 0);
    lemma_header(s, 0);
    let from = crate::formula::behind(leading);
    expression_read_is_well_named(s, from);
    match expr_at(s, from) {
        Some((rhs, p)) => {
            lemma_closing(s, p);
        },
        None => {},
    }
}

/// Every model that a text stands for holds each name once in each of its
/// lists of named arguments.
pub proof fn model_read_is_well_named(s: Seq<char>)
    ensures
        model_at(s) matches Some(m) ==> well_named_model(m),
{
    lemma_full_form(s);
    lemma_rhs_only_form(s);
}

} // verus!
