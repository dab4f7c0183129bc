//! The grammar of a whole formula: header, response with its modifiers,
//! right-hand side, distributional parameters and autocorrelation terms.
//!
//! A formula is `[header] response [| modifier ..] ~ rhs [+ dpar ~ rhs ..]
//! [+ autocor(..) ..] [, header]`, or a right-hand side alone with a header
//! before or behind it. Blanks may stand between the parts. The formulas of
//! distributional parameters and the autocorrelation terms may follow the
//! right-hand side in any order. A sum ends before `+ name ~` with the name of
//! a distributional parameter and before an autocorrelation term with named
//! arguments; a call such as `ar()` or `ar(1)` is a term of the sum.

use crate::ast::{
    AtermView, AutocorView, DparView, ExprView, FamilyView, FormulaView, LinkView, ModelSpecView,
    ResponseView, Text,
};
use crate::grammar::{
    args_at, autocor_at, call_at, dpar_head_at, expr_at, first_of, names_at, padded_char_at,
};
use crate::lex::{dotted_at, eats, has, ident_at, skip_space, string_at, within};
use vstd::prelude::*;

verus! {

/// `word(expr)`.
pub open spec fn unary_at(s: Seq<char>, pos: int, word: Text) -> Option<(ExprView, int)> {
    if eats(s, pos, word) && has(s, pos + word.len(), '(') {
        match expr_at(s, pos + word.len() + 1) {
            Some((e, q)) => if has(s, q, ')') {
                Some((e, q + 1))
            } else {
                None
            },
            None => None,
        }
    } else {
        None
    }
}

/// `word = expr`, with blanks before the word; nothing where that does not
/// stand there.
pub open spec fn bound_at(s: Seq<char>, pos: int, word: Text) -> Option<(ExprView, int)> {
    let start = skip_space(s, pos);
    if eats(s, start, word) {
        match padded_char_at(s, start + word.len(), '=') {
            Some(q) => expr_at(s, q),
            None => None,
        }
    } else {
        None
    }
}

/// `word(expr, ..)` with at least one expression.
pub open spec fn list_call_at(s: Seq<char>, pos: int, word: Text) -> Option<(Seq<ExprView>, int)> {
    if eats(s, pos, word) && has(s, pos + word.len(), '(') {
        let r = args_at(s, pos + word.len() + 1);
        if r.0.len() > 0 && has(s, r.1, ')') {
            Some((r.0, r.1 + 1))
        } else {
            None
        }
    } else {
        None
    }
}

pub open spec fn value_of(r: Option<(ExprView, int)>) -> Option<ExprView> {
    match r {
        Some((e, _)) => Some(e),
        None => None,
    }
}

pub open spec fn end_of(r: Option<(ExprView, int)>, otherwise: int) -> int {
    match r {
        Some((_, q)) => q,
        None => otherwise,
    }
}

/// `trunc(lb=.., ub=..)`, each bound optional; behind a lower bound the upper
/// bound stands behind a `,`.
pub open spec fn trunc_at(s: Seq<char>, pos: int) -> Option<(AtermView, int)> {
    if eats(s, pos, "trunc"@) && has(s, pos + "trunc"@.len(), '(') {
        let start = pos + "trunc"@.len() + 1;
        let lower = bound_at(s, start, "lb"@);
        let upper = match lower {
            Some((_, q)) => if has(s, q, ',') {
                bound_at(s, q + 1, "ub"@)
            } else {
                None
            },
            None => bound_at(s, start, "ub"@),
        };
        let close = skip_space(s, end_of(upper, end_of(lower, start)));
        if has(s, close, ')') {
            Some((AtermView::Trunc { lb: value_of(lower), ub: value_of(upper) }, close + 1))
        } else {
            None
        }
    } else {
        None
    }
}

/// `thres(gr=..)`, the argument optional.
pub open spec fn thres_at(s: Seq<char>, pos: int) -> Option<(AtermView, int)> {
    if eats(s, pos, "thres"@) && has(s, pos + "thres"@.len(), '(') {
        let start = pos + "thres"@.len() + 1;
        let gr = bound_at(s, start, "gr"@);
        let close = skip_space(s, end_of(gr, start));
        if has(s, close, ')') {
            Some((AtermView::Thres { gr: value_of(gr) }, close + 1))
        } else {
            None
        }
    } else {
        None
    }
}

pub open spec fn mi_at(s: Seq<char>, pos: int) -> Option<(AtermView, int)> {
    if eats(s, pos, "mi"@) && has(s, pos + "mi"@.len(), '(') {
        let close = skip_space(s, pos + "mi"@.len() + 1);
        if has(s, close, ')') {
            Some((AtermView::Mi, close + 1))
        } else {
            None
        }
    } else {
        None
    }
}

/// The modifier with one expression that the word `tag` names.
pub open spec fn unary_aterm(tag: int, e: ExprView) -> AtermView {
    if tag == 0 {
        AtermView::Se(e)
    } else if tag == 1 {
        AtermView::Weights(e)
    } else if tag == 2 {
        AtermView::Trials(e)
    } else if tag == 3 {
        AtermView::Cens(e)
    } else if tag == 5 {
        AtermView::Subset(e)
    } else if tag == 6 {
        AtermView::Rate(e)
    } else if tag == 8 {
        AtermView::Dec(e)
    } else if tag == 9 {
        AtermView::Cat(e)
    } else {
        AtermView::Index(e)
    }
}

pub open spec fn unary_aterm_at(s: Seq<char>, pos: int, word: Text, tag: int) -> Option<
    (AtermView, int),
> {
    match unary_at(s, pos, word) {
        Some((e, q)) => Some((unary_aterm(tag, e), q)),
        None => None,
    }
}

pub open spec fn vreal_at(s: Seq<char>, pos: int) -> Option<(AtermView, int)> {
    match list_call_at(s, pos, "vreal"@) {
        Some((es, q)) => Some((AtermView::VReal(es), q)),
        None => None,
    }
}

pub open spec fn vint_at(s: Seq<char>, pos: int) -> Option<(AtermView, int)> {
    match list_call_at(s, pos, "vint"@) {
        Some((es, q)) => Some((AtermView::VInt(es), q)),
        None => None,
    }
}

/// A modifier of the response without the blanks round it: `se`, `weights`,
/// `trials`, `cens`, `trunc`, `subset`, `rate`, `thres`, `dec`, `cat`,
/// `index`, `vreal`, `vint` or `mi`, tried in this order.
pub open spec fn bare_aterm_at(s: Seq<char>, pos: int) -> Option<(AtermView, int)> {
    first_of(
        unary_aterm_at(s, pos, "se"@, 0),
        first_of(
            unary_aterm_at(s, pos, "weights"@, 1),
            first_of(
                unary_aterm_at(s, pos, "trials"@, 2),
                first_of(
                    unary_aterm_at(s, pos, "cens"@, 3),
                    first_of(
                        trunc_at(s, pos),
                        first_of(
                            unary_aterm_at(s, pos, "subset"@, 5),
                            first_of(
                                unary_aterm_at(s, pos, "rate"@, 6),
                                first_of(
                                    thres_at(s, pos),
                                    first_of(
                                        unary_aterm_at(s, pos, "dec"@, 8),
                                        first_of(
                                            unary_aterm_at(s, pos, "cat"@, 9),
                                            first_of(
                                                unary_aterm_at(s, pos, "index"@, 10),
                                                first_of(
                                                    vreal_at(s, pos),
                                                    first_of(vint_at(s, pos), mi_at(s, pos)),
                                                ),
                                            ),
                                        ),
                                    ),
                                ),
                            ),
                        ),
                    ),
                ),
            ),
        ),
    )
}

/// A modifier of the response, with blanks before and behind.
pub open spec fn aterm_at(s: Seq<char>, pos: int) -> Option<(AtermView, int)> {
    match bare_aterm_at(s, skip_space(s, pos)) {
        Some((a, q)) => Some((a, skip_space(s, q))),
        None => None,
    }
}

pub open spec fn aterms_rest(s: Seq<char>, pos: int, acc: Seq<AtermView>) -> (
    Seq<AtermView>,
    int,
)
    decreases s.len() - pos,
{
    if has(s, pos, '|') || has(s, pos, ',') {
        match aterm_at(s, pos + 1) {
            Some((a, q)) => if within(s, pos + 1, q) {
                aterms_rest(s, q, acc.push(a))
            } else {
                (acc, pos)
            },
            None => (acc, pos),
        }
    } else {
        (acc, pos)
    }
}

/// `word(name, name, ..)` with at least two names.
pub open spec fn multi_at(s: Seq<char>, pos: int, word: Text) -> Option<(ResponseView, int)> {
    if eats(s, pos, word) && has(s, pos + word.len(), '(') {
        match names_at(s, pos + word.len() + 1) {
            Some((names, q)) => if names.len() >= 2 && has(s, q, ')') {
                Some((ResponseView::Multi(names), q + 1))
            } else {
                None
            },
            None => None,
        }
    } else {
        None
    }
}

/// `Surv(time, event)` or `Surv(time, event, time2)`.
pub open spec fn surv_at(s: Seq<char>, pos: int) -> Option<(ResponseView, int)> {
    if eats(s, pos, "Surv"@) && has(s, pos + "Surv"@.len(), '(') {
        let r = args_at(s, pos + "Surv"@.len() + 1);
        if (r.0.len() == 2 || r.0.len() == 3) && has(s, r.1, ')') {
            Some(
                (
                    ResponseView::Surv {
                        time: r.0[0],
                        event: r.0[1],
                        time2: if r.0.len() == 3 {
                            Some(r.0[2])
                        } else {
                            None
                        },
                    },
                    r.1 + 1,
                ),
            )
        } else {
            None
        }
    } else {
        None
    }
}

pub open spec fn var_response(r: Option<(Text, int)>) -> Option<(ResponseView, int)> {
    match r {
        Some((v, q)) => Some((ResponseView::Var(v), q)),
        None => None,
    }
}

pub open spec fn func_response(r: Option<((Text, Seq<ExprView>), int)>) -> Option<
    (ResponseView, int),
> {
    match r {
        Some(((name, args), q)) => Some((ResponseView::Func { name, args }, q)),
        None => None,
    }
}

/// A response without modifiers: `mvbind(..)`, `cbind(..)`, `Surv(..)`, a
/// call or a variable, tried in this order.
pub open spec fn response_basic_at(s: Seq<char>, pos: int) -> Option<(ResponseView, int)> {
    first_of(
        multi_at(s, pos, "mvbind"@),
        first_of(
            multi_at(s, pos, "cbind"@),
            first_of(
                surv_at(s, pos),
                first_of(func_response(call_at(s, pos)), var_response(ident_at(s, pos))),
            ),
        ),
    )
}

/// A variable with the single modifier `trials(n)` is a binomial response
/// without modifiers.
pub open spec fn fold_trials(base: ResponseView, chain: Seq<AtermView>) -> (
    ResponseView,
    Seq<AtermView>,
) {
    if chain.len() == 1 && chain[0] is Trials && base is Var {
        (
            ResponseView::BinomialTrials {
                successes: ExprView::Var(base->Var_0),
                trials: chain[0]->Trials_0,
            },
            Seq::empty(),
        )
    } else {
        (base, chain)
    }
}

/// A response, with blanks before and behind: a response without modifiers,
/// then `|` and one modifier or more with `|` or `,` between them, or
/// nothing.
pub open spec fn response_at(s: Seq<char>, pos: int) -> Option<
    ((ResponseView, Seq<AtermView>), int),
> {
    match response_basic_at(s, skip_space(s, pos)) {
        Some((base, p)) => {
            let q = skip_space(s, p);
            if has(s, q, '|') {
                match aterm_at(s, q + 1) {
                    Some((a, next)) => {
                        let r = aterms_rest(s, next, seq![a]);
                        Some((fold_trials(base, r.0), r.1))
                    },
                    None => None,
                }
            } else {
                Some(((base, Seq::empty()), q))
            }
        },
        None => None,
    }
}

pub open spec fn builtin_family(r: Option<((Text, Seq<ExprView>), int)>) -> Option<
    (FamilyView, int),
> {
    match r {
        Some(((name, args), q)) => Some((FamilyView::Builtin(name, args), q)),
        None => None,
    }
}

/// A member of a mixture: a family that is a call, with blanks before and
/// behind.
pub open spec fn member_at(s: Seq<char>, pos: int) -> Option<(FamilyView, int)> {
    match builtin_family(call_at(s, skip_space(s, pos))) {
        Some((f, q)) => Some((f, skip_space(s, q))),
        None => None,
    }
}

pub open spec fn families_rest(s: Seq<char>, pos: int, acc: Seq<FamilyView>) -> (
    Seq<FamilyView>,
    int,
)
    decreases s.len() - pos,
{
    if has(s, pos, ',') {
        match member_at(s, pos + 1) {
            Some((f, q)) => if within(s, pos + 1, q) {
                families_rest(s, q, acc.push(f))
            } else {
                (acc, pos)
            },
            None => (acc, pos),
        }
    } else {
        (acc, pos)
    }
}

/// `mixture(family, family, ..)` with at least two families.
pub open spec fn mixture_at(s: Seq<char>, pos: int) -> Option<(FamilyView, int)> {
    if eats(s, pos, "mixture"@) && has(s, pos + "mixture"@.len(), '(') {
        match member_at(s, pos + "mixture"@.len() + 1) {
            Some((f, p)) => {
                let r = families_rest(s, p, seq![f]);
                if r.0.len() >= 2 && has(s, r.1, ')') {
                    Some((FamilyView::Mixture(r.0), r.1 + 1))
                } else {
                    None
                }
            },
            None => None,
        }
    } else {
        None
    }
}

/// A string with blanks before and behind.
pub open spec fn string_item_at(s: Seq<char>, pos: int) -> Option<(Text, int)> {
    match string_at(s, skip_space(s, pos)) {
        Some((t, q)) => Some((t, skip_space(s, q))),
        None => None,
    }
}

pub open spec fn strings_rest(s: Seq<char>, pos: int, acc: Seq<Text>) -> (Seq<Text>, int)
    decreases s.len() - pos,
{
    if has(s, pos, ',') {
        match string_item_at(s, pos + 1) {
            Some((t, q)) => if within(s, pos + 1, q) {
                strings_rest(s, q, acc.push(t))
            } else {
                (acc, pos)
            },
            None => (acc, pos),
        }
    } else {
        (acc, pos)
    }
}

/// `custom_family("name", "dpar", ..)`.
pub open spec fn custom_at(s: Seq<char>, pos: int) -> Option<(FamilyView, int)> {
    if eats(s, pos, "custom_family"@) && has(s, pos + "custom_family"@.len(), '(') {
        match string_item_at(s, pos + "custom_family"@.len() + 1) {
            Some((name, p)) => {
                let r = strings_rest(s, p, Seq::empty());
                if has(s, r.1, ')') {
                    Some((FamilyView::Custom { name, dpars: r.0 }, r.1 + 1))
                } else {
                    None
                }
            },
            None => None,
        }
    } else {
        None
    }
}

/// A family: `mixture(..)`, `custom_family(..)` or a call, tried in this
/// order.
pub open spec fn family_at(s: Seq<char>, pos: int) -> Option<(FamilyView, int)> {
    first_of(mixture_at(s, pos), first_of(custom_at(s, pos), builtin_family(call_at(s, pos))))
}

/// A link: a call, else a dotted name.
pub open spec fn link_at(s: Seq<char>, pos: int) -> Option<(LinkView, int)> {
    match call_at(s, pos) {
        Some(((name, args), q)) => Some((LinkView::Named(name, args), q)),
        None => match dotted_at(s, pos) {
            Some((name, q)) => Some((LinkView::Named(name, Seq::empty()), q)),
            None => None,
        },
    }
}

/// `, link = ..` behind a family; nothing where that does not stand there.
pub open spec fn link_part_at(s: Seq<char>, pos: int) -> Option<(LinkView, int)> {
    match padded_char_at(s, pos, ',') {
        Some(q) => if eats(s, q, "link"@) {
            match padded_char_at(s, q + "link"@.len(), '=') {
                Some(q2) => link_at(s, q2),
                None => None,
            }
        } else {
            None
        },
        None => None,
    }
}

/// A header, with blanks before it: `family = ..`, then `, link = ..` or
/// nothing.
pub open spec fn header_at(s: Seq<char>, pos: int) -> Option<
    ((FamilyView, Option<LinkView>), int),
> {
    let start = skip_space(s, pos);
    if eats(s, start, "family"@) {
        match padded_char_at(s, start + "family"@.len(), '=') {
            Some(p) => match family_at(s, p) {
                Some((family, q)) => match link_part_at(s, q) {
                    Some((link, q2)) => Some(((family, Some(link)), q2)),
                    None => Some(((family, None), q)),
                },
                None => None,
            },
            None => None,
        }
    } else {
        None
    }
}

/// The formula of a distributional parameter: `name ~ rhs`.
pub open spec fn dpar_at(s: Seq<char>, pos: int) -> Option<(DparView, int)> {
    match dpar_head_at(s, pos) {
        Some((name, p)) => match expr_at(s, p) {
            Some((rhs, q)) => Some((DparView { name, rhs }, q)),
            None => None,
        },
        None => None,
    }
}

/// What follows the right-hand side: formulas of distributional parameters
/// and autocorrelation terms, each behind a `+`, in any order.
pub open spec fn tail_at(s: Seq<char>, pos: int, acc: (Seq<DparView>, Seq<AutocorView>)) -> (
    (Seq<DparView>, Seq<AutocorView>),
    int,
)
    decreases s.len() - pos,
{
    match padded_char_at(s, pos, '+') {
        Some(q) => if pos < q <= s.len() {
            match dpar_at(s, q) {
                Some((d, p)) => if within(s, q, p) {
                    tail_at(s, p, (acc.0.push(d), acc.1))
                } else {
                    (acc, pos)
                },
                None => match autocor_at(s, q) {
                    Some((a, p)) => if within(s, q, p) {
                        tail_at(s, p, (acc.0, acc.1.push(a)))
                    } else {
                        (acc, pos)
                    },
                    None => (acc, pos),
                },
            }
        } else {
            (acc, pos)
        },
        None => (acc, pos),
    }
}

/// A header behind a `,`; nothing where that does not stand there.
pub open spec fn trailing_header_at(s: Seq<char>, pos: int) -> Option<
    ((FamilyView, Option<LinkView>), int),
> {
    match padded_char_at(s, pos, ',') {
        Some(q) => header_at(s, q),
        None => None,
    }
}

/// The header that counts: the trailing one where there is one, else the
/// leading one.
pub open spec fn chosen_header(
    leading: Option<((FamilyView, Option<LinkView>), int)>,
    trailing: Option<((FamilyView, Option<LinkView>), int)>,
) -> Option<(FamilyView, Option<LinkView>)> {
    match trailing {
        Some((h, _)) => Some(h),
        None => match leading {
            Some((h, _)) => Some(h),
            None => None,
        },
    }
}

/// The model of the given parts.
pub open spec fn model_of(
    header: Option<(FamilyView, Option<LinkView>)>,
    lhs: ResponseView,
    aterms: Seq<AtermView>,
    rhs: ExprView,
    dpars: Seq<DparView>,
    autocor: Seq<AutocorView>,
) -> ModelSpecView {
    ModelSpecView {
        family: match header {
            Some(h) => Some(h.0),
            None => None,
        },
        link: match header {
            Some(h) => h.1,
            None => None,
        },
        formula: FormulaView { lhs, rhs, aterms },
        dpars,
        autocor,
    }
}

/// The position behind a leading header, or the start.
pub open spec fn behind(leading: Option<((FamilyView, Option<LinkView>), int)>) -> int {
    match leading {
        Some((_, p)) => p,
        None => 0,
    }
}

/// Whether nothing but blanks and a trailing header or nothing follow `pos`;
/// the trailing header.
pub open spec fn closing_at(s: Seq<char>, pos: int) -> Option<
    Option<((FamilyView, Option<LinkView>), int)>,
> {
    let trailing = trailing_header_at(s, pos);
    let end = match trailing {
        Some((_, q)) => q,
        None => pos,
    };
    if skip_space(s, end) == s.len() {
        Some(trailing)
    } else {
        None
    }
}

/// The full form: header or nothing, response, `~`, right-hand side,
/// formulas of distributional parameters and autocorrelation terms behind
/// `+`, trailing header or nothing, and the end of the text.
pub open spec fn full_form(s: Seq<char>) -> Option<ModelSpecView> {
    let leading = header_at(s, 0);
    match response_at(s, behind(leading)) {
        Some(((lhs, aterms), at1)) => if has(s, at1, '~') {
            match expr_at(s, at1 + 1) {
                Some((rhs, at3)) => {
                    let tail = tail_at(s, at3, (Seq::empty(), Seq::empty()));
                    match closing_at(s, tail.1) {
                        Some(trailing) => Some(
                            model_of(
                                chosen_header(leading, trailing),
                                lhs,
                                aterms,
                                rhs,
                                tail.0.0,
                                tail.0.1,
                            ),
                        ),
                        None => None,
                    }
                },
                None => None,
            }
        } else {
            None
        },
        None => None,
    }
}

/// The form without response: header or nothing, right-hand side, trailing
/// header or nothing, and the end of the text. The response is the variable
/// without name.
pub open spec fn rhs_only_form(s: Seq<char>) -> Option<ModelSpecView> {
    let leading = header_at(s, 0);
    match expr_at(s, behind(leading)) {
        Some((rhs, p)) => match closing_at(s, p) {
            Some(trailing) => Some(
                model_of(
                    chosen_header(leading, trailing),
                    ResponseView::Var(Seq::empty()),
                    Seq::empty(),
                    rhs,
                    Seq::empty(),
                    Seq::empty(),
                ),
            ),
            None => None,
        },
        None => None,
    }
}

/// The model that a text stands for: its reading in the full form, else in
/// the form without response; none where the text has neither form.
pub open spec fn model_at(s: Seq<char>) -> Option<ModelSpecView> {
    first_of(full_form(s), rhs_only_form(s))
}

} // verus!
