//! Reading a model back from its text: what it means that a model reads
//! back, a test of it for any model, and the proof of it for a formula with
//! a variable as response, a sum of variables as right-hand side and, behind
//! it, a family and a link without arguments or no header.

use crate::ast::{
    AtermView, AutocorView, DparView, ExprView, FamilyView, FormulaView, LinkView, ModelSpec,
    ModelSpecView, ResponseView, Text,
};
use crate::formula::{
    chosen_header, closing_at, custom_at, family_at, full_form, header_at, link_at,
    link_part_at, member_at, mixture_at, model_at, multi_at, response_at, response_basic_at,
    rhs_only_form, string_item_at, surv_at, tail_at, trailing_header_at,
};
use crate::grammar::{
    args_at, atom_at, autocor_at, autocor_with, bare_atom_at, call_at, dpar_head, dpar_head_at, expr_at,
    group_term_at, inter_at, inter_rest, nest_at, nest_op_at, nest_rest, one_or_sum,
    padded_char_at, pow_at, prod_at, prod_rest, smooth_at, smooth_form, sum_at, sum_rest,
    tail_starts,
};
use crate::lex::{
    boolean_at, dotted_at, dotted_rest, eats, has, ident_at, ident_end, keyword_at, number_at,
    skip_space, string_at,
};
use crate::parser::parser;
use crate::pretty::{expr_text, list_texts, model_text, pretty};
use crate::text::{is_ident_part, is_ident_start, is_space, join};
use vstd::prelude::*;

verus! {

/// Whether a model reads back from its text: the text stands for a model,
/// and the text of that model is the same text.
pub open spec fn reads_back(m: ModelSpecView) -> bool {
    model_at(model_text(m)) matches Some(again) && model_text(again) == model_text(m)
}

/// Whether a model reads back from its text.
pub fn reads_back_from_text(spec: &ModelSpec) -> (r: bool)
    ensures
        r == reads_back(spec@),
{
    let text = pretty(spec);
    match parser().parse(text.as_str()) {
        Ok(again) => pretty(&again) == text,
        Err(_) => false,
    }
}

/// Whether a text is an identifier.
pub open spec fn is_name(v: Text) -> bool {
    v.len() > 0 && is_ident_start(v[0]) && forall|i: int|
        0 <= i < v.len() ==> is_ident_part(#[trigger] v[i])
}

/// Whether a text is the name of a variable of a right-hand side: an
/// identifier that is no boolean.
pub open spec fn is_variable_name(v: Text) -> bool {
    is_name(v) && v != "true"@ && v != "false"@ && v != "TRUE"@ && v != "FALSE"@
}

/// The variables with the given names.
pub open spec fn variables(xs: Seq<Text>) -> Seq<ExprView> {
    Seq::new(xs.len(), |i: int| ExprView::Var(xs[i]))
}

/// The model `y ~ x1 + x2 + ..` of a response and the sum of one variable or
/// more; the single variable itself where there is one only.
pub open spec fn sum_model(y: Text, xs: Seq<Text>) -> ModelSpecView {
    ModelSpecView {
        family: None,
        link: None,
        formula: FormulaView {
            lhs: ResponseView::Var(y),
            rhs: one_or_sum(variables(xs)),
            aterms: Seq::empty(),
        },
        dpars: Seq::empty(),
        autocor: Seq::empty(),
    }
}

/// The text ` + x + ..` of the names from `i` on.
pub open spec fn rest_text(xs: Seq<Text>, i: int) -> Text
    decreases xs.len() - i,
{
    if i < 0 || i >= xs.len() {
        Seq::empty()
    } else {
        " + "@ + xs[i] + rest_text(xs, i + 1)
    }
}

proof fn lemma_rest_push(init: Seq<Text>, last: Text, i: int)
    requires
        0 <= i <= init.len(),
    ensures
        rest_text(init.push(last), i) == rest_text(init, i) + (" + "@ + last),
    decreases init.len() - i,
{
    let all = init.push(last);
    if i < init.len() {
        lemma_rest_push(init, last, i + 1);
        assert(all[i] == init[i]);
        assert(rest_text(all, i) =~= rest_text(init, i) + (" + "@ + last));
    } else {
        assert(all[i] == last);
        assert(rest_text(all, i + 1) =~= Seq::<char>::empty());
        assert(rest_text(init, i) =~= Seq::<char>::empty());
        assert(rest_text(all, i) =~= rest_text(init, i) + (" + "@ + last));
    }
}

proof fn lemma_join_front(xs: Seq<Text>)
    requires
        xs.len() >= 1,
    ensures
        join(xs, " + "@) == xs[0] + rest_text(xs, 1),
    decreases xs.len(),
{
    if xs.len() == 1 {
        assert(rest_text(xs, 1) =~= Seq::<char>::empty());
        assert(xs[0] + rest_text(xs, 1) =~= xs[0]);
    } else {
        let init = xs.drop_last();
        let last = xs.last();
        lemma_join_front(init);
        assert(xs =~= init.push(last));
        lemma_rest_push(init, last, 1);
        assert(init[0] == xs[0]);
        assert(join(xs, " + "@) =~= xs[0] + rest_text(xs, 1));
    }
}

proof fn lemma_ident_run(s: Seq<char>, from: int, to: int)
    requires
        0 <= from <= to <= s.len(),
        forall|i: int| from <= i < to ==> is_ident_part(#[trigger] s[i]),
        to == s.len() || !is_ident_part(s[to]),
    ensures
        ident_end(s, from) == to,
    decreases to - from,
{
    if from < to {
        assert(is_ident_part(s[from]));
        lemma_ident_run(s, from + 1, to);
    }
}

proof fn lemma_no_space(s: Seq<char>, pos: int)
    requires
        0 <= pos <= s.len(),
        pos == s.len() || !is_space(s[pos]),
    ensures
        skip_space(s, pos) == pos,
{
}

proof fn lemma_one_space(s: Seq<char>, pos: int)
    requires
        0 <= pos < s.len(),
        s[pos] == ' ',
        pos + 1 == s.len() || !is_space(s[pos + 1]),
    ensures
        skip_space(s, pos) == pos + 1,
{
    lemma_no_space(s, pos + 1);
}

/// Whether the name `x` stands at `pos` and the text ends behind it or goes
/// on with ` +` or with `,`.
pub open spec fn stands(s: Seq<char>, pos: int, x: Text) -> bool {
    &&& 0 <= pos
    &&& pos + x.len() <= s.len()
    &&& s.subrange(pos, pos + x.len()) == x
    &&& (pos + x.len() == s.len() || (pos + x.len() + 1 < s.len() && s[pos + x.len()] == ' '
        && s[pos + x.len() + 1] == '+') || s[pos + x.len()] == ',')
}

/// The position behind a name that stands at `pos`, and behind the blank
/// that follows it.
pub open spec fn behind(s: Seq<char>, pos: int, x: Text) -> int {
    if pos + x.len() < s.len() && s[pos + x.len()] == ' ' {
        pos + x.len() + 1
    } else {
        pos + x.len()
    }
}

/// The characters of a name that stands at `pos`.
proof fn lemma_name_chars(s: Seq<char>, pos: int, x: Text)
    requires
        is_name(x),
        stands(s, pos, x),
    ensures
        forall|i: int|
            pos <= i < pos + x.len() ==> is_ident_part(#[trigger] s[i]) && !is_space(s[i]),
        s[pos] == x[0],
        ident_at(s, pos) == Some((x, pos + x.len())),
        skip_space(s, pos) == pos,
        skip_space(s, pos + x.len()) == behind(s, pos, x),
        skip_space(s, behind(s, pos, x)) == behind(s, pos, x),
        behind(s, pos, x) == s.len() || s[behind(s, pos, x)] == '+' || s[behind(s, pos, x)]
            == ',',
{
    let e = pos + x.len();
    assert forall|i: int| pos <= i < e implies is_ident_part(#[trigger] s[i]) && !is_space(
        s[i],
    ) by {
        assert(s.subrange(pos, e)[i - pos] == s[i]);
        assert(is_ident_part(x[i - pos]));
    }
    assert(s[pos] == x[0]) by {
        assert(s.subrange(pos, e)[0] == s[pos]);
    }
    lemma_no_space(s, pos);
    lemma_ident_run(s, pos + 1, e);
    if e < s.len() && s[e] == ' ' {
        lemma_one_space(s, e);
    } else {
        lemma_no_space(s, e);
    }
    lemma_no_space(s, behind(s, pos, x));
}

/// Whether every character of a word may stand in an identifier.
pub open spec fn is_word(word: Text) -> bool {
    forall|k: int| 0 <= k < word.len() ==> is_ident_part(#[trigger] word[k])
}

/// A word that stands where a name stands is the start of the name.
proof fn lemma_word_in_name(s: Seq<char>, pos: int, x: Text, word: Text)
    requires
        is_name(x),
        stands(s, pos, x),
        is_word(word),
        eats(s, pos, word),
    ensures
        word.len() <= x.len(),
        word.len() < x.len() ==> is_ident_part(s[pos + word.len()]),
        word.len() == x.len() ==> word == x,
{
    let w = word.len() as int;
    let n = x.len() as int;
    if w > n {
        assert(s.subrange(pos, pos + w)[n] == s[pos + n]);
        assert(is_ident_part(word[n]));
        assert(false);
    } else if w < n {
        assert(s.subrange(pos, pos + n)[w] == s[pos + w]);
        assert(is_ident_part(x[w]));
    }
}

/// No word with `(` behind it stands where a name of a sum stands.
proof fn lemma_no_open(s: Seq<char>, pos: int, x: Text, word: Text)
    requires
        is_name(x),
        stands(s, pos, x),
        is_word(word),
    ensures
        !(eats(s, pos, word) && has(s, pos + word.len(), '(')),
{
    if eats(s, pos, word) {
        lemma_word_in_name(s, pos, x, word);
    }
}

/// No word with `~` behind it stands where a name of a sum stands.
proof fn lemma_no_head(s: Seq<char>, pos: int, x: Text, word: Text)
    requires
        is_name(x),
        stands(s, pos, x),
        is_word(word),
    ensures
        dpar_head(s, pos, word) is None,
{
    if eats(s, pos, word) {
        lemma_word_in_name(s, pos, x, word);
        lemma_name_chars(s, pos, x);
        if word.len() < x.len() {
            lemma_no_space(s, pos + word.len());
        }
    }
}

/// Another word than the name is no keyword where a name of a sum stands.
proof fn lemma_no_keyword(s: Seq<char>, pos: int, x: Text, word: Text)
    requires
        is_name(x),
        stands(s, pos, x),
        is_word(word),
        x != word,
    ensures
        !keyword_at(s, pos, word),
{
    if eats(s, pos, word) {
        lemma_word_in_name(s, pos, x, word);
    }
}

proof fn lemma_no_boolean(s: Seq<char>, pos: int, x: Text)
    requires
        is_variable_name(x),
        stands(s, pos, x),
    ensures
        boolean_at(s, pos) is None,
{
    reveal_strlit("true");
    reveal_strlit("false");
    reveal_strlit("TRUE");
    reveal_strlit("FALSE");
    lemma_no_keyword(s, pos, x, "true"@);
    lemma_no_keyword(s, pos, x, "false"@);
    lemma_no_keyword(s, pos, x, "TRUE"@);
    lemma_no_keyword(s, pos, x, "FALSE"@);
}

proof fn lemma_no_smooth(s: Seq<char>, pos: int, x: Text)
    requires
        is_name(x),
        stands(s, pos, x),
    ensures
        smooth_at(s, pos) is None,
{
    reveal_strlit("s");
    reveal_strlit("t2");
    reveal_strlit("te");
    reveal_strlit("ti");
    lemma_no_open(s, pos, x, "s"@);
    lemma_no_open(s, pos, x, "t2"@);
    lemma_no_open(s, pos, x, "te"@);
    lemma_no_open(s, pos, x, "ti"@);
    assert forall|kind: crate::ast::SmoothKind| smooth_form(s, pos, kind) is None by {
        let word = crate::pretty::smooth_kind_text(kind);
        assert(!(eats(s, pos, word) && has(s, pos + word.len(), '(')));
    }
}

#[verifier::rlimit(30)]
proof fn lemma_no_head_first(s: Seq<char>, pos: int, x: Text)
    requires
        is_name(x),
        stands(s, pos, x),
    ensures
        dpar_head(s, pos, "sigma"@) is None,
        dpar_head(s, pos, "nu"@) is None,
        dpar_head(s, pos, "phi"@) is None,
        dpar_head(s, pos, "zi"@) is None,
{
    reveal_strlit("sigma");
    lemma_no_head(s, pos, x, "sigma"@);
    reveal_strlit("nu");
    lemma_no_head(s, pos, x, "nu"@);
    reveal_strlit("phi");
    lemma_no_head(s, pos, x, "phi"@);
    reveal_strlit("zi");
    lemma_no_head(s, pos, x, "zi"@);
}

#[verifier::rlimit(30)]
proof fn lemma_no_head_second(s: Seq<char>, pos: int, x: Text)
    requires
        is_name(x),
        stands(s, pos, x),
    ensures
        dpar_head(s, pos, "hu"@) is None,
        dpar_head(s, pos, "zoi"@) is None,
        dpar_head(s, pos, "coi"@) is None,
        dpar_head(s, pos, "kappa"@) is None,
{
    reveal_strlit("hu");
    lemma_no_head(s, pos, x, "hu"@);
    reveal_strlit("zoi");
    lemma_no_head(s, pos, x, "zoi"@);
    reveal_strlit("coi");
    lemma_no_head(s, pos, x, "coi"@);
    reveal_strlit("kappa");
    lemma_no_head(s, pos, x, "kappa"@);
}

#[verifier::rlimit(30)]
proof fn lemma_no_head_third(s: Seq<char>, pos: int, x: Text)
    requires
        is_name(x),
        stands(s, pos, x),
    ensures
        dpar_head(s, pos, "beta"@) is None,
        dpar_head(s, pos, "disc"@) is None,
        dpar_head(s, pos, "bs"@) is None,
        dpar_head(s, pos, "ndt"@) is None,
        dpar_head(s, pos, "bias"@) is None,
{
    reveal_strlit("beta");
    lemma_no_head(s, pos, x, "beta"@);
    reveal_strlit("disc");
    lemma_no_head(s, pos, x, "disc"@);
    reveal_strlit("bs");
    lemma_no_head(s, pos, x, "bs"@);
    reveal_strlit("ndt");
    lemma_no_head(s, pos, x, "ndt"@);
    reveal_strlit("bias");
    lemma_no_head(s, pos, x, "bias"@);
}

/// No autocorrelation term of the given name stands where a name of a sum
/// stands.
proof fn lemma_no_autocor(s: Seq<char>, pos: int, x: Text, word: Text)
    requires
        is_name(x),
        stands(s, pos, x),
        is_word(word),
    ensures
        autocor_with(s, pos, word) is None,
{
    lemma_no_open(s, pos, x, word);
}

#[verifier::rlimit(30)]
proof fn lemma_no_autocor_first(s: Seq<char>, pos: int, x: Text)
    requires
        is_name(x),
        stands(s, pos, x),
    ensures
        autocor_with(s, pos, "ar"@) is None,
        autocor_with(s, pos, "ma"@) is None,
        autocor_with(s, pos, "arma"@) is None,
        autocor_with(s, pos, "cosy"@) is None,
{
    reveal_strlit("ar");
    lemma_no_autocor(s, pos, x, "ar"@);
    reveal_strlit("ma");
    lemma_no_autocor(s, pos, x, "ma"@);
    reveal_strlit("arma");
    lemma_no_autocor(s, pos, x, "arma"@);
    reveal_strlit("cosy");
    lemma_no_autocor(s, pos, x, "cosy"@);
}

#[verifier::rlimit(30)]
proof fn lemma_no_autocor_second(s: Seq<char>, pos: int, x: Text)
    requires
        is_name(x),
        stands(s, pos, x),
    ensures
        autocor_with(s, pos, "unstr"@) is None,
        autocor_with(s, pos, "sar"@) is None,
        autocor_with(s, pos, "car"@) is None,
        autocor_with(s, pos, "fcor"@) is None,
{
    reveal_strlit("unstr");
    lemma_no_autocor(s, pos, x, "unstr"@);
    reveal_strlit("sar");
    lemma_no_autocor(s, pos, x, "sar"@);
    reveal_strlit("car");
    lemma_no_autocor(s, pos, x, "car"@);
    reveal_strlit("fcor");
    lemma_no_autocor(s, pos, x, "fcor"@);
}

/// Neither the formula of a distributional parameter nor an autocorrelation
/// term starts where a name of a sum stands.
proof fn lemma_no_tail(s: Seq<char>, pos: int, x: Text)
    requires
        is_name(x),
        stands(s, pos, x),
    ensures
        !tail_starts(s, pos),
{
    lemma_no_head_first(s, pos, x);
    lemma_no_head_second(s, pos, x);
    lemma_no_head_third(s, pos, x);
    lemma_no_autocor_first(s, pos, x);
    lemma_no_autocor_second(s, pos, x);
    assert(dpar_head_at(s, pos) is None);
    assert(autocor_at(s, pos) is None);
}

/// Nothing but a variable stands where a variable of a sum stands.
#[verifier::rlimit(30)]
proof fn lemma_bare_variable(s: Seq<char>, pos: int, x: Text)
    requires
        is_variable_name(x),
        stands(s, pos, x),
    ensures
        bare_atom_at(s, pos) == Some((ExprView::Var(x), pos + x.len())),
{
    let e = pos + x.len();
    lemma_name_chars(s, pos, x);
    lemma_no_boolean(s, pos, x);
    lemma_no_smooth(s, pos, x);
    assert(number_at(s, pos) is None);
    assert(string_at(s, pos) is None);
    assert(group_term_at(s, pos) is None);
    assert(dotted_at(s, pos) == Some((x, e))) by {
        assert(dotted_rest(s, e, x) == (x, e));
    }
    assert(call_at(s, pos) is None);
}

/// A variable that stands in a sum reads as a product of that variable
/// alone.
#[verifier::rlimit(30)]
proof fn lemma_variable_reads(s: Seq<char>, pos: int, x: Text)
    requires
        is_variable_name(x),
        stands(s, pos, x),
    ensures
        prod_at(s, pos) == Some((ExprView::Var(x), behind(s, pos, x))),
{
    let q = behind(s, pos, x);
    let v = ExprView::Var(x);
    lemma_name_chars(s, pos, x);
    lemma_bare_variable(s, pos, x);
    assert(atom_at(s, pos) == Some((v, q)));
    assert(pow_at(s, pos) == Some((v, q)));
    assert(inter_rest(s, q, seq![v]) == (seq![v], q));
    assert(inter_at(s, pos) == Some((v, q)));
    assert(nest_op_at(s, q) is None) by {
        reveal_strlit("%in%");
        if eats(s, q, "%in%"@) {
            assert(s.subrange(q, q + 4)[0] == s[q]);
        }
    }
    assert(nest_rest(s, q, v) == (v, q));
    assert(nest_at(s, pos) == Some((v, q)));
    assert(prod_rest(s, q, seq![v]) == (seq![v], q));
}

/// Whether the further terms ` + x + ..` of a sum stand from `start` to
/// `end`, and the text ends there or goes on with `,`.
pub open spec fn rest_stands(s: Seq<char>, start: int, end: int, xs: Seq<Text>, i: int) -> bool {
    &&& 0 <= start <= end <= s.len()
    &&& s.subrange(start, end) == rest_text(xs, i)
    &&& (end == s.len() || s[end] == ',')
}

/// The parts of the further terms ` + x + ..` of a sum.
#[verifier::rlimit(30)]
proof fn lemma_rest_shape(s: Seq<char>, start: int, end: int, xs: Seq<Text>, i: int)
    requires
        0 <= i < xs.len(),
        rest_stands(s, start, end, xs, i),
    ensures
        start + 3 + xs[i].len() <= end,
        s[start] == ' ',
        s[start + 1] == '+',
        s[start + 2] == ' ',
        stands(s, start + 3, xs[i]),
        rest_stands(s, start + 3 + xs[i].len(), end, xs, i + 1),
        i + 1 < xs.len() ==> s[start + 3 + xs[i].len()] == ' ',
        i + 1 == xs.len() ==> start + 3 + xs[i].len() == end,
{
    reveal_strlit(" + ");
    let rest = rest_text(xs, i);
    let x = xs[i];
    let tail = rest_text(xs, i + 1);
    assert(rest == " + "@ + x + tail);
    assert(end - start == 3 + x.len() + tail.len()) by {
        assert(s.subrange(start, end).len() == end - start);
    }
    assert forall|k: int| 0 <= k < rest.len() implies s[start + k] == #[trigger] rest[k] by {
        assert(s.subrange(start, end)[k] == s[start + k]);
    }
    assert(s[start] == ' ') by {
        assert(rest[0] == ' ');
    }
    assert(s[start + 1] == '+') by {
        assert(rest[1] == '+');
    }
    assert(s[start + 2] == ' ') by {
        assert(rest[2] == ' ');
    }
    let at = start + 3;
    let e = at + x.len();
    assert(s.subrange(at, e) =~= x) by {
        assert forall|k: int| 0 <= k < x.len() implies s[at + k] == x[k] by {
            assert(rest[3 + k] == x[k]);
        }
    }
    assert(s.subrange(e, end) =~= tail) by {
        assert forall|k: int| 0 <= k < tail.len() implies s[e + k] == tail[k] by {
            assert(rest[3 + x.len() + k] == tail[k]);
        }
    }
    if i + 1 < xs.len() {
        assert(tail == " + "@ + xs[i + 1] + rest_text(xs, i + 2));
        assert(s[e] == ' ') by {
            assert(tail[0] == ' ');
            assert(s.subrange(e, end)[0] == s[e]);
        }
        assert(s[e + 1] == '+') by {
            assert(tail[1] == '+');
            assert(s.subrange(e, end)[1] == s[e + 1]);
        }
    } else {
        assert(tail.len() == 0);
    }
}

/// One further term of a sum: behind a `+` and a blank stands a variable, and
/// the sum goes on behind it.
proof fn lemma_term_reads(s: Seq<char>, plus: int, x: Text, acc: Seq<ExprView>)
    requires
        is_variable_name(x),
        0 <= plus,
        plus + 2 < s.len(),
        s[plus] == '+',
        s[plus + 1] == ' ',
        stands(s, plus + 2, x),
    ensures
        sum_rest(s, plus, acc) == sum_rest(
            s,
            behind(s, plus + 2, x),
            acc.push(ExprView::Var(x)),
        ),
{
    let at = plus + 2;
    lemma_name_chars(s, at, x);
    lemma_variable_reads(s, at, x);
    lemma_no_tail(s, at, x);
    lemma_no_space(s, plus);
    lemma_one_space(s, plus + 1);
}

/// A sum ends where the text ends or goes on with `,`.
proof fn lemma_sum_ends(s: Seq<char>, end: int, acc: Seq<ExprView>)
    requires
        0 <= end <= s.len(),
        end == s.len() || s[end] == ',',
    ensures
        sum_rest(s, end, acc) == (acc, end),
        skip_space(s, end) == end,
{
    lemma_no_space(s, end);
}

/// The further terms ` + x + ..` of a sum read as the variables of these
/// names.
#[verifier::rlimit(30)]
proof fn lemma_rest_reads(
    s: Seq<char>,
    start: int,
    end: int,
    xs: Seq<Text>,
    i: int,
    acc: Seq<ExprView>,
)
    requires
        0 <= i <= xs.len(),
        rest_stands(s, start, end, xs, i),
        forall|j: int| 0 <= j < xs.len() ==> is_variable_name(#[trigger] xs[j]),
    ensures
        sum_rest(
            s,
            if i < xs.len() {
                start + 1
            } else {
                start
            },
            acc,
        ) == (acc + variables(xs).subrange(i, xs.len() as int), end),
    decreases xs.len() - i,
{
    if i == xs.len() {
        assert(rest_text(xs, i).len() == 0);
        assert(start == end) by {
            assert(s.subrange(start, end).len() == end - start);
        }
        lemma_sum_ends(s, end, acc);
        assert(acc + variables(xs).subrange(i, xs.len() as int) =~= acc);
    } else {
        let x = xs[i];
        assert(is_variable_name(x));
        lemma_rest_shape(s, start, end, xs, i);
        let at = start + 3;
        let e = at + x.len();
        lemma_term_reads(s, start + 1, x, acc);
        let next = acc.push(ExprView::Var(x));
        lemma_rest_reads(s, e, end, xs, i + 1, next);
        assert(behind(s, at, x) == if i + 1 < xs.len() {
            e + 1
        } else {
            e
        });
        assert(next + variables(xs).subrange(i + 1, xs.len() as int) =~= acc + variables(
            xs,
        ).subrange(i, xs.len() as int));
    }
}

/// The left-hand side `y ~ ` reads as the response `y` without header and
/// without modifiers.
#[verifier::rlimit(30)]
proof fn lemma_left_side(s: Seq<char>, y: Text)
    requires
        is_name(y),
        y.len() + 3 < s.len(),
        s.subrange(0, y.len() as int) == y,
        s[y.len() as int] == ' ',
        s[y.len() as int + 1] == '~',
        s[y.len() as int + 2] == ' ',
        !is_space(s[y.len() as int + 3]),
    ensures
        header_at(s, 0) is None,
        response_at(s, 0) == Some(
            ((ResponseView::Var(y), Seq::<AtermView>::empty()), y.len() as int + 1),
        ),
        skip_space(s, y.len() as int + 2) == y.len() as int + 3,
{
    let n = y.len() as int;
    assert forall|i: int| 0 <= i < n implies s[i] == y[i] && is_ident_part(#[trigger] s[i])
        && !is_space(s[i]) by {
        assert(s.subrange(0, n)[i] == s[i]);
        assert(is_ident_part(y[i]));
    }
    assert(s[0] == y[0]);
    lemma_no_space(s, 0);
    lemma_one_space(s, n);
    lemma_one_space(s, n + 2);
    assert(header_at(s, 0) is None) by {
        reveal_strlit("family");
        if eats(s, 0, "family"@) {
            assert(s.subrange(0, 6) == "family"@);
            if n > 6 {
                lemma_no_space(s, 6);
            } else if n < 6 {
                assert(s.subrange(0, 6)[n] == s[n]);
                assert(false);
            }
            assert(padded_char_at(s, 6, '=') is None);
        }
    }
    lemma_ident_run(s, 1, n);
    assert(ident_at(s, 0) == Some((y, n)));
    assert(dotted_at(s, 0) == Some((y, n))) by {
        assert(dotted_rest(s, n, y) == (y, n));
    }
    assert(call_at(s, 0) is None);
    assert(multi_at(s, 0, "mvbind"@) is None) by {
        reveal_strlit("mvbind");
        if eats(s, 0, "mvbind"@) {
            assert(s.subrange(0, 6) == "mvbind"@);
            if n < 6 {
                assert(s.subrange(0, 6)[n] == s[n]);
            }
        }
    }
    assert(multi_at(s, 0, "cbind"@) is None) by {
        reveal_strlit("cbind");
        if eats(s, 0, "cbind"@) {
            assert(s.subrange(0, 5) == "cbind"@);
            if n < 5 {
                assert(s.subrange(0, 5)[n] == s[n]);
            }
        }
    }
    assert(surv_at(s, 0) is None) by {
        reveal_strlit("Surv");
        if eats(s, 0, "Surv"@) {
            assert(s.subrange(0, 4) == "Surv"@);
            if n < 4 {
                assert(s.subrange(0, 4)[n] == s[n]);
            }
        }
    }
    assert(response_basic_at(s, 0) == Some((ResponseView::Var(y), n)));
}

// ---------------------------------------------------------------------------
// The header behind the formula
// ---------------------------------------------------------------------------

/// The header of a family without arguments and, where there is one, a link
/// without arguments: `, family=f()` and `, link=l`; nothing without a
/// family.
pub open spec fn header_tail(h: Option<(Text, Option<Text>)>) -> Text {
    match h {
        Some((f, l)) => ", family="@ + f + "()"@ + (match l {
            Some(n) => ", link="@ + n,
            None => Seq::empty(),
        }),
        None => Seq::empty(),
    }
}

/// The family of a header: the family of that name without arguments.
pub open spec fn family_of(h: Option<(Text, Option<Text>)>) -> Option<FamilyView> {
    match h {
        Some((f, l)) => Some(FamilyView::Builtin(f, Seq::empty())),
        None => None,
    }
}

/// The link of a header: the link of that name without arguments.
pub open spec fn link_of(h: Option<(Text, Option<Text>)>) -> Option<LinkView> {
    match h {
        Some((f, Some(n))) => Some(LinkView::Named(n, Seq::empty())),
        _ => None,
    }
}

/// The model `y ~ x1 + x2 + ..` with the given header or none.
pub open spec fn headed_model(
    y: Text,
    xs: Seq<Text>,
    h: Option<(Text, Option<Text>)>,
) -> ModelSpecView {
    ModelSpecView {
        family: family_of(h),
        link: link_of(h),
        formula: FormulaView {
            lhs: ResponseView::Var(y),
            rhs: one_or_sum(variables(xs)),
            aterms: Seq::empty(),
        },
        dpars: Seq::empty(),
        autocor: Seq::empty(),
    }
}

/// Whether the names of a header are identifiers.
pub open spec fn is_header(h: Option<(Text, Option<Text>)>) -> bool {
    h matches Some(x) ==> is_name(x.0) && (x.1 matches Some(n) ==> is_name(n))
}

/// The text of the model `y ~ x1 + x2 + ..` with a header.
proof fn lemma_sum_text(y: Text, xs: Seq<Text>, h: Option<(Text, Option<Text>)>)
    requires
        is_name(y),
        xs.len() >= 1,
    ensures
        model_text(headed_model(y, xs, h)) == y + " ~ "@ + join(xs, " + "@) + header_tail(h),
{
    let m = headed_model(y, xs, h);
    let parts = seq![crate::pretty::formula_text(m.formula)];
    assert(parts + crate::pretty::dpar_texts(m.dpars) + crate::pretty::autocor_texts(m.autocor)
        =~= parts);
    assert(join(parts, " + "@) == parts[0]);
    if xs.len() == 1 {
        assert(variables(xs)[0] == ExprView::Var(xs[0]));
        assert(join(xs, " + "@) == xs[0]);
    } else {
        assert(list_texts(variables(xs), 1) =~= xs);
        assert(expr_text(ExprView::Sum(variables(xs))) == join(xs, " + "@));
    }
    assert(parts[0] == y + " ~ "@ + join(xs, " + "@));
    match h {
        Some((f, l)) => {
            reveal_strlit("()");
            reveal_strlit("(");
            reveal_strlit(")");
            let none = Seq::<ExprView>::empty();
            assert(list_texts(none, 0) =~= Seq::<Text>::empty());
            assert(join(Seq::<Text>::empty(), ", "@) =~= Seq::<char>::empty());
            assert(crate::pretty::family_text(FamilyView::Builtin(f, none)) =~= f + "()"@);
            match l {
                Some(n) => {
                    assert(crate::pretty::link_text(LinkView::Named(n, none)) == n);
                },
                None => {},
            }
            assert(crate::pretty::header_text(m.family, m.link) =~= header_tail(h));
        },
        None => {
            assert(crate::pretty::header_text(m.family, m.link) =~= header_tail(h));
        },
    }
}

/// Whether a text is `y ~ x1`, the further terms ` + x2 + ..` behind it up
/// to `end`, and from there on nothing or what starts with `,`.
pub open spec fn is_sum_text(s: Seq<char>, y: Text, xs: Seq<Text>, end: int) -> bool {
    let n = y.len() as int;
    &&& xs.len() >= 1
    &&& n + 3 + xs[0].len() <= end <= s.len()
    &&& s.subrange(0, n) == y
    &&& s[n] == ' '
    &&& s[n + 1] == '~'
    &&& s[n + 2] == ' '
    &&& stands(s, n + 3, xs[0])
    &&& rest_stands(s, n + 3 + xs[0].len(), end, xs, 1)
}

/// The text `y ~ x1 + x2 + ..` and what follows it is made of these parts.
#[verifier::rlimit(30)]
proof fn lemma_sum_shape(y: Text, xs: Seq<Text>, tail: Seq<char>)
    requires
        xs.len() >= 1,
        tail.len() == 0 || tail[0] == ',',
    ensures
        is_sum_text(
            y + " ~ "@ + (xs[0] + rest_text(xs, 1)) + tail,
            y,
            xs,
            (y + " ~ "@ + (xs[0] + rest_text(xs, 1))).len() as int,
        ),
        (y + " ~ "@ + (xs[0] + rest_text(xs, 1)) + tail).subrange(
            (y + " ~ "@ + (xs[0] + rest_text(xs, 1))).len() as int,
            (y + " ~ "@ + (xs[0] + rest_text(xs, 1)) + tail).len() as int,
        ) == tail,
{
    reveal_strlit(" ~ ");
    reveal_strlit(" + ");
    let x = xs[0];
    let more = rest_text(xs, 1);
    let body = y + " ~ "@ + (x + more);
    let s = body + tail;
    let n = y.len() as int;
    let end = body.len() as int;
    let at = n + 3;
    let e = at + x.len();
    assert(end == e + more.len());
    assert(s.subrange(0, n) =~= y);
    assert(s[n] == ' ');
    assert(s[n + 1] == '~');
    assert(s[n + 2] == ' ');
    assert(s.subrange(at, e) =~= x);
    assert(s.subrange(e, end) =~= more);
    assert(s.subrange(end, s.len() as int) =~= tail);
    if tail.len() > 0 {
        assert(s[end] == tail[0]);
    }
    if 1 < xs.len() {
        assert(more == " + "@ + xs[1] + rest_text(xs, 2));
        assert(s[e] == ' ') by {
            assert(more[0] == ' ');
            assert(s.subrange(e, end)[0] == s[e]);
        }
        assert(s[e + 1] == '+') by {
            assert(more[1] == '+');
            assert(s.subrange(e, end)[1] == s[e + 1]);
        }
    } else {
        assert(more.len() == 0);
    }
}

/// The sum `x1 + x2 + ..` that stands at `at` reads as the sum of these
/// variables.
#[verifier::rlimit(30)]
proof fn lemma_sum_reads(s: Seq<char>, at: int, xs: Seq<Text>, end: int)
    requires
        xs.len() >= 1,
        stands(s, at, xs[0]),
        rest_stands(s, at + xs[0].len(), end, xs, 1),
        forall|j: int| 0 <= j < xs.len() ==> is_variable_name(#[trigger] xs[j]),
    ensures
        sum_at(s, at) == Some((one_or_sum(variables(xs)), end)),
        skip_space(s, at) == at,
        skip_space(s, end) == end,
{
    let x = xs[0];
    assert(is_variable_name(x));
    let e = at + x.len();
    let first = seq![ExprView::Var(x)];
    lemma_name_chars(s, at, x);
    lemma_variable_reads(s, at, x);
    lemma_rest_reads(s, e, end, xs, 1, first);
    assert(first + variables(xs).subrange(1, xs.len() as int) =~= variables(xs));
    lemma_sum_ends(s, end, variables(xs));
    if 1 < xs.len() {
        lemma_rest_shape(s, e, end, xs, 1);
        assert(behind(s, at, x) == e + 1);
    } else {
        assert(rest_text(xs, 1).len() == 0);
        assert(e == end) by {
            assert(s.subrange(e, end).len() == end - e);
        }
        assert(behind(s, at, x) == e);
    }
    assert(prod_at(s, at) == Some((ExprView::Var(x), behind(s, at, x))));
    assert(sum_rest(s, behind(s, at, x), first) == (variables(xs), end));
}

/// The right-hand side `x1 + x2 + ..` reads as the sum of these variables.
#[verifier::rlimit(30)]
proof fn lemma_right_side(s: Seq<char>, y: Text, xs: Seq<Text>, end: int)
    requires
        is_sum_text(s, y, xs, end),
        forall|j: int| 0 <= j < xs.len() ==> is_variable_name(#[trigger] xs[j]),
    ensures
        expr_at(s, y.len() as int + 2) == Some((one_or_sum(variables(xs)), end)),
{
    let n = y.len() as int;
    lemma_sum_reads(s, n + 3, xs, end);
    lemma_one_space(s, n + 2);
}

/// A word does not stand where its first character does not.
proof fn lemma_not_eaten(s: Seq<char>, pos: int, word: Text)
    requires
        0 <= pos < s.len(),
        word.len() > 0,
        s[pos] != word[0],
    ensures
        !eats(s, pos, word),
{
    if eats(s, pos, word) {
        assert(s.subrange(pos, pos + word.len())[0] == s[pos]);
    }
}

/// No atom stands at a `)`.
#[verifier::rlimit(30)]
proof fn lemma_no_atom(s: Seq<char>, q: int)
    requires
        0 <= q < s.len(),
        s[q] == ')',
    ensures
        bare_atom_at(s, q) is None,
        skip_space(s, q) == q,
{
    lemma_no_space(s, q);
    reveal_strlit("true");
    reveal_strlit("false");
    reveal_strlit("TRUE");
    reveal_strlit("FALSE");
    lemma_not_eaten(s, q, "true"@);
    lemma_not_eaten(s, q, "false"@);
    lemma_not_eaten(s, q, "TRUE"@);
    lemma_not_eaten(s, q, "FALSE"@);
    assert(boolean_at(s, q) is None);
    reveal_strlit("s");
    reveal_strlit("t2");
    reveal_strlit("te");
    reveal_strlit("ti");
    lemma_not_eaten(s, q, "s"@);
    lemma_not_eaten(s, q, "t2"@);
    lemma_not_eaten(s, q, "te"@);
    lemma_not_eaten(s, q, "ti"@);
    assert forall|kind: crate::ast::SmoothKind| smooth_form(s, q, kind) is None by {
        let word = crate::pretty::smooth_kind_text(kind);
        assert(!eats(s, q, word));
    }
    assert(smooth_at(s, q) is None);
    assert(number_at(s, q) is None);
    assert(string_at(s, q) is None);
    assert(group_term_at(s, q) is None);
    assert(ident_at(s, q) is None);
    assert(dotted_at(s, q) is None);
    assert(call_at(s, q) is None);
}

/// Nothing that could stand between parentheses stands at a `)`: no
/// argument, no member of a mixture and no string.
proof fn lemma_closes(s: Seq<char>, q: int)
    requires
        0 <= q < s.len(),
        s[q] == ')',
    ensures
        args_at(s, q) == (Seq::<ExprView>::empty(), q),
        member_at(s, q) is None,
        string_item_at(s, q) is None,
        skip_space(s, q) == q,
{
    lemma_no_atom(s, q);
    assert(atom_at(s, q) is None);
    assert(pow_at(s, q) is None);
    assert(inter_at(s, q) is None);
    assert(nest_at(s, q) is None);
    assert(prod_at(s, q) is None);
    assert(sum_at(s, q) is None);
    assert(expr_at(s, q) is None);
    assert(string_at(s, q) is None);
    assert(call_at(s, q) is None);
}

/// Whether the name `x` stands at `pos` with `()` behind it.
pub open spec fn called(s: Seq<char>, pos: int, x: Text) -> bool {
    &&& 0 <= pos
    &&& pos + x.len() + 2 <= s.len()
    &&& s.subrange(pos, pos + x.len()) == x
    &&& s[pos + x.len()] == '('
    &&& s[pos + x.len() + 1] == ')'
}

proof fn lemma_called_chars(s: Seq<char>, pos: int, x: Text)
    requires
        is_name(x),
        called(s, pos, x),
    ensures
        forall|i: int| pos <= i < pos + x.len() ==> is_ident_part(#[trigger] s[i]),
        skip_space(s, pos) == pos,
        dotted_at(s, pos) == Some((x, pos + x.len())),
{
    let e = pos + x.len();
    assert forall|i: int| pos <= i < e implies is_ident_part(#[trigger] s[i]) by {
        assert(s.subrange(pos, e)[i - pos] == s[i]);
        assert(is_ident_part(x[i - pos]));
    }
    assert(s[pos] == x[0]) by {
        assert(s.subrange(pos, e)[0] == s[pos]);
    }
    lemma_no_space(s, pos);
    lemma_ident_run(s, pos + 1, e);
    assert(ident_at(s, pos) == Some((x, e)));
    assert(dotted_rest(s, e, x) == (x, e));
}

/// A word with `(` behind it that stands where a called name stands ends
/// where the name ends.
proof fn lemma_word_is_name(s: Seq<char>, pos: int, x: Text, word: Text)
    requires
        is_name(x),
        called(s, pos, x),
        is_word(word),
        eats(s, pos, word),
        has(s, pos + word.len(), '('),
    ensures
        word.len() == x.len(),
{
    let w = word.len() as int;
    let n = x.len() as int;
    lemma_called_chars(s, pos, x);
    if w > n {
        assert(s.subrange(pos, pos + w)[n] == s[pos + n]);
        assert(is_ident_part(word[n]));
    } else if w < n {
        assert(is_ident_part(s[pos + w]));
    }
}

/// A called name reads as a call without arguments.
proof fn lemma_call_reads(s: Seq<char>, pos: int, x: Text)
    requires
        is_name(x),
        called(s, pos, x),
    ensures
        call_at(s, pos) == Some(((x, Seq::<ExprView>::empty()), pos + x.len() + 2)),
{
    lemma_called_chars(s, pos, x);
    lemma_closes(s, pos + x.len() + 1);
}

/// A called name reads as the family of that name without arguments.
proof fn lemma_family_reads(s: Seq<char>, pos: int, f: Text)
    requires
        is_name(f),
        called(s, pos, f),
    ensures
        family_at(s, pos) == Some(
            (FamilyView::Builtin(f, Seq::<ExprView>::empty()), pos + f.len() + 2),
        ),
{
    lemma_call_reads(s, pos, f);
    lemma_closes(s, pos + f.len() + 1);
    reveal_strlit("mixture");
    reveal_strlit("custom_family");
    assert(mixture_at(s, pos) is None) by {
        if eats(s, pos, "mixture"@) && has(s, pos + "mixture"@.len(), '(') {
            lemma_word_is_name(s, pos, f, "mixture"@);
        }
    }
    assert(custom_at(s, pos) is None) by {
        if eats(s, pos, "custom_family"@) && has(s, pos + "custom_family"@.len(), '(') {
            lemma_word_is_name(s, pos, f, "custom_family"@);
        }
    }
}

/// A name at the end of a text reads as the link of that name.
proof fn lemma_link_reads(s: Seq<char>, pos: int, n: Text)
    requires
        is_name(n),
        0 <= pos,
        pos + n.len() == s.len(),
        s.subrange(pos, s.len() as int) == n,
    ensures
        link_at(s, pos) == Some((LinkView::Named(n, Seq::<ExprView>::empty()), s.len() as int)),
        skip_space(s, pos) == pos,
{
    let e = s.len() as int;
    assert forall|i: int| pos <= i < e implies is_ident_part(#[trigger] s[i]) by {
        assert(s.subrange(pos, e)[i - pos] == s[i]);
        assert(is_ident_part(n[i - pos]));
    }
    assert(s[pos] == n[0]) by {
        assert(s.subrange(pos, e)[0] == s[pos]);
    }
    lemma_no_space(s, pos);
    lemma_ident_run(s, pos + 1, e);
    assert(ident_at(s, pos) == Some((n, e)));
    assert(dotted_rest(s, e, n) == (n, e));
    assert(dotted_at(s, pos) == Some((n, e)));
    assert(call_at(s, pos) is None);
}

/// Whether the header `, family=f()` stands at `end`, and behind it the text
/// ends or `, link=l` follows to the end of the text.
pub open spec fn header_stands(s: Seq<char>, end: int, f: Text, l: Option<Text>) -> bool {
    let p = end + 9;
    let e = p + f.len();
    &&& 0 <= end
    &&& e + 2 <= s.len()
    &&& s[end] == ','
    &&& s[end + 1] == ' '
    &&& eats(s, end + 2, "family"@)
    &&& s[end + 8] == '='
    &&& called(s, p, f)
    &&& match l {
        Some(n) => {
            &&& e + 9 + n.len() == s.len()
            &&& s[e + 2] == ','
            &&& s[e + 3] == ' '
            &&& eats(s, e + 4, "link"@)
            &&& s[e + 8] == '='
            &&& s.subrange(e + 9, s.len() as int) == n
        },
        None => e + 2 == s.len(),
    }
}

/// The parts of a header.
#[verifier::rlimit(30)]
proof fn lemma_header_shape(s: Seq<char>, end: int, f: Text, l: Option<Text>)
    requires
        0 <= end <= s.len(),
        s.subrange(end, s.len() as int) == header_tail(Some((f, l))),
    ensures
        header_stands(s, end, f, l),
{
    reveal_strlit(", family=");
    reveal_strlit("family");
    reveal_strlit("()");
    reveal_strlit(", link=");
    reveal_strlit("link");
    let t = header_tail(Some((f, l)));
    let len = s.len() as int;
    assert(len - end == t.len()) by {
        assert(s.subrange(end, len).len() == len - end);
    }
    assert forall|k: int| 0 <= k < t.len() implies s[end + k] == #[trigger] t[k] by {
        assert(s.subrange(end, len)[k] == s[end + k]);
    }
    let p = end + 9;
    let e = p + f.len();
    let first = ", family="@ + f + "()"@;
    assert(first.len() == 11 + f.len());
    assert forall|k: int| 0 <= k < first.len() implies t[k] == #[trigger] first[k] by {
        match l {
            Some(n) => {
                assert(t == first + (", link="@ + n));
            },
            None => {
                assert(t =~= first);
            },
        }
    }
    assert(s[end] == ',') by {
        assert(first[0] == ',');
    }
    assert(s[end + 1] == ' ') by {
        assert(first[1] == ' ');
    }
    assert(s.subrange(end + 2, end + 8) =~= "family"@) by {
        assert forall|k: int| 0 <= k < 6 implies s[end + 2 + k] == "family"@[k] by {
            assert(first[2 + k] == ", family="@[2 + k]);
        }
    }
    assert(s[end + 8] == '=') by {
        assert(first[8] == '=');
    }
    assert(s.subrange(p, e) =~= f) by {
        assert forall|k: int| 0 <= k < f.len() implies s[p + k] == f[k] by {
            assert(first[9 + k] == f[k]);
        }
    }
    assert(s[e] == '(') by {
        assert(first[e - end] == '(');
    }
    assert(s[e + 1] == ')') by {
        assert(first[e + 1 - end] == ')');
    }
    match l {
        Some(n) => {
            let second = ", link="@ + n;
            assert(t == first + second);
            assert forall|k: int| 0 <= k < second.len() implies s[e + 2 + k] == #[trigger] second[k] by {
                assert(t[e + 2 - end + k] == second[k]);
            }
            assert(s[e + 2] == ',') by {
                assert(second[0] == ',');
            }
            assert(s[e + 3] == ' ') by {
                assert(second[1] == ' ');
            }
            assert(s.subrange(e + 4, e + 8) =~= "link"@) by {
                assert forall|k: int| 0 <= k < 4 implies s[e + 4 + k] == "link"@[k] by {
                    assert(second[2 + k] == ", link="@[2 + k]);
                }
            }
            assert(s[e + 8] == '=') by {
                assert(second[6] == '=');
            }
            assert(s.subrange(e + 9, len) =~= n) by {
                assert forall|k: int| 0 <= k < n.len() implies s[e + 9 + k] == n[k] by {
                    assert(second[7 + k] == n[k]);
                }
            }
        },
        None => {
            assert(t =~= first);
        },
    }
}

/// The family of a header that stands at `end` reads from `end + 2` on.
proof fn lemma_header_family(s: Seq<char>, end: int, f: Text, l: Option<Text>)
    requires
        is_name(f),
        header_stands(s, end, f, l),
    ensures
        padded_char_at(s, end, '+') is None,
        padded_char_at(s, end, ',') == Some(end + 2),
        skip_space(s, end + 2) == end + 2,
        padded_char_at(s, end + 8, '=') == Some(end + 9),
        family_at(s, end + 9) == Some(
            (FamilyView::Builtin(f, Seq::<ExprView>::empty()), end + 9 + f.len() + 2),
        ),
{
    reveal_strlit("family");
    lemma_no_space(s, end);
    assert(s[end + 2] == 'f') by {
        assert(s.subrange(end + 2, end + 8)[0] == s[end + 2]);
    }
    lemma_one_space(s, end + 1);
    lemma_no_space(s, end + 2);
    lemma_no_space(s, end + 8);
    lemma_called_chars(s, end + 9, f);
    lemma_family_reads(s, end + 9, f);
}

/// The link of a header reads behind the family, where there is one.
proof fn lemma_header_link(s: Seq<char>, e: int, l: Option<Text>)
    requires
        0 <= e,
        l matches Some(n) ==> is_name(n),
        match l {
            Some(n) => {
                &&& e + 9 + n.len() == s.len()
                &&& s[e + 2] == ','
                &&& s[e + 3] == ' '
                &&& eats(s, e + 4, "link"@)
                &&& s[e + 8] == '='
                &&& s.subrange(e + 9, s.len() as int) == n
            },
            None => e + 2 == s.len(),
        },
    ensures
        link_part_at(s, e + 2) == match l {
            Some(n) => Some((LinkView::Named(n, Seq::<ExprView>::empty()), s.len() as int)),
            None => None,
        },
        skip_space(s, s.len() as int) == s.len(),
{
    reveal_strlit("link");
    lemma_no_space(s, s.len() as int);
    lemma_no_space(s, e + 2);
    match l {
        Some(n) => {
            assert(s[e + 4] == 'l') by {
                assert(s.subrange(e + 4, e + 8)[0] == s[e + 4]);
            }
            lemma_one_space(s, e + 3);
            lemma_no_space(s, e + 8);
            lemma_link_reads(s, e + 9, n);
            assert(padded_char_at(s, e + 2, ',') == Some(e + 4));
            assert(padded_char_at(s, e + 8, '=') == Some(e + 9));
        },
        None => {
            assert(padded_char_at(s, e + 2, ',') is None);
        },
    }
}

/// What follows the right-hand side reads as the header, or as nothing.
#[verifier::rlimit(30)]
proof fn lemma_header_reads(s: Seq<char>, end: int, h: Option<(Text, Option<Text>)>)
    requires
        is_header(h),
        0 <= end <= s.len(),
        s.subrange(end, s.len() as int) == header_tail(h),
    ensures
        tail_at(s, end, (Seq::<DparView>::empty(), Seq::<AutocorView>::empty())) == (
            (Seq::<DparView>::empty(), Seq::<AutocorView>::empty()),
            end,
        ),
        closing_at(s, end) matches Some(t) && chosen_header(None, t) == (match h {
            Some(x) => Some((family_of(h)->0, link_of(h))),
            None => None,
        }),
{
    let len = s.len() as int;
    match h {
        Some((f, l)) => {
            reveal_strlit("family");
            lemma_header_shape(s, end, f, l);
            lemma_header_family(s, end, f, l);
            lemma_header_link(s, end + 9 + f.len(), l);
            let family = FamilyView::Builtin(f, Seq::<ExprView>::empty());
            assert(header_at(s, end + 2) == Some(((family, link_of(h)), len)));
            assert(trailing_header_at(s, end) == Some(((family, link_of(h)), len)));
        },
        None => {
            assert(end == len) by {
                assert(s.subrange(end, len).len() == len - end);
            }
            lemma_no_space(s, end);
            assert(padded_char_at(s, end, '+') is None);
            assert(padded_char_at(s, end, ',') is None);
            assert(trailing_header_at(s, end) is None);
        },
    }
}

// ---------------------------------------------------------------------------
// The law
// ---------------------------------------------------------------------------

/// A text of these parts stands for the model of these parts.
#[verifier::rlimit(30)]
proof fn lemma_text_reads(
    s: Seq<char>,
    y: Text,
    xs: Seq<Text>,
    h: Option<(Text, Option<Text>)>,
    end: int,
)
    requires
        is_name(y),
        forall|j: int| 0 <= j < xs.len() ==> is_variable_name(#[trigger] xs[j]),
        is_header(h),
        is_sum_text(s, y, xs, end),
        s.subrange(end, s.len() as int) == header_tail(h),
    ensures
        full_form(s) == Some(headed_model(y, xs, h)),
{
    let n = y.len() as int;
    assert(is_variable_name(xs[0]));
    lemma_name_chars(s, n + 3, xs[0]);
    lemma_left_side(s, y);
    lemma_right_side(s, y, xs, end);
    lemma_header_reads(s, end, h);
    let leading = header_at(s, 0);
    assert(leading is None);
    assert(crate::formula::behind(leading) == 0);
    assert(response_at(s, 0) == Some(
        ((ResponseView::Var(y), Seq::<AtermView>::empty()), n + 1),
    ));
    assert(has(s, n + 1, '~'));
    assert(expr_at(s, n + 2) == Some((one_or_sum(variables(xs)), end)));
}

/// A formula with a variable as response, a sum of variables as right-hand
/// side and a family and a link without arguments, or none, reads back from
/// its text: the text of the model `y ~ x1 + x2 + .., family=f(), link=l`
/// stands for that model, for all identifiers `y`, `f` and `l` and all
/// identifiers `x1`, `x2`, .. that are no booleans.
#[verifier::rlimit(30)]
pub proof fn sum_with_header_reads_back(y: Text, xs: Seq<Text>, h: Option<(Text, Option<Text>)>)
    requires
        is_name(y),
        xs.len() >= 1,
        forall|j: int| 0 <= j < xs.len() ==> is_variable_name(#[trigger] xs[j]),
        is_header(h),
    ensures
        model_at(model_text(headed_model(y, xs, h))) == Some(headed_model(y, xs, h)),
        model_text(headed_model(y, xs, h)) == y + " ~ "@ + join(xs, " + "@) + header_tail(h),
        reads_back(headed_model(y, xs, h)),
{
    lemma_sum_text(y, xs, h);
    lemma_join_front(xs);
    let tail = header_tail(h);
    let body = y + " ~ "@ + (xs[0] + rest_text(xs, 1));
    let s = body + tail;
    assert(body =~= y + " ~ "@ + join(xs, " + "@));
    assert(tail.len() == 0 || tail[0] == ',') by {
        reveal_strlit(", family=");
    }
    lemma_sum_shape(y, xs, tail);
    lemma_text_reads(s, y, xs, h, body.len() as int);
}

// ---------------------------------------------------------------------------
// A right-hand side alone
// ---------------------------------------------------------------------------

/// The model `x1 + x2 + ..` without response, with the given header or
/// none.
pub open spec fn bare_model(xs: Seq<Text>, h: Option<(Text, Option<Text>)>) -> ModelSpecView {
    headed_model(Seq::empty(), xs, h)
}

/// The text of the model `x1 + x2 + ..` with a header.
proof fn lemma_bare_text(xs: Seq<Text>, h: Option<(Text, Option<Text>)>)
    requires
        xs.len() >= 1,
        forall|j: int| 0 <= j < xs.len() ==> is_variable_name(#[trigger] xs[j]),
    ensures
        model_text(bare_model(xs, h)) == join(xs, " + "@) + header_tail(h),
{
    let m = bare_model(xs, h);
    let parts = seq![crate::pretty::formula_text(m.formula)];
    assert(parts + crate::pretty::dpar_texts(m.dpars) + crate::pretty::autocor_texts(m.autocor)
        =~= parts);
    assert(join(parts, " + "@) == parts[0]);
    if xs.len() == 1 {
        assert(variables(xs)[0] == ExprView::Var(xs[0]));
        assert(join(xs, " + "@) == xs[0]);
    } else {
        assert(list_texts(variables(xs), 1) =~= xs);
        assert(expr_text(ExprView::Sum(variables(xs))) == join(xs, " + "@));
    }
    assert(crate::pretty::response_text(m.formula.lhs).len() == 0);
    assert(parts[0] == join(xs, " + "@));
    match h {
        Some((f, l)) => {
            reveal_strlit("()");
            reveal_strlit("(");
            reveal_strlit(")");
            let none = Seq::<ExprView>::empty();
            assert(list_texts(none, 0) =~= Seq::<Text>::empty());
            assert(join(Seq::<Text>::empty(), ", "@) =~= Seq::<char>::empty());
            assert(crate::pretty::family_text(FamilyView::Builtin(f, none)) =~= f + "()"@);
            match l {
                Some(n) => {
                    assert(crate::pretty::link_text(LinkView::Named(n, none)) == n);
                },
                None => {},
            }
            assert(crate::pretty::header_text(m.family, m.link) =~= header_tail(h));
        },
        None => {
            assert(crate::pretty::header_text(m.family, m.link) =~= header_tail(h));
        },
    }
}

/// A text that starts with a name of a sum has not the full form: no `~`
/// follows the name.
#[verifier::rlimit(30)]
proof fn lemma_no_response(s: Seq<char>, x: Text)
    requires
        is_name(x),
        stands(s, 0, x),
    ensures
        header_at(s, 0) is None,
        full_form(s) is None,
{
    let n = x.len() as int;
    lemma_name_chars(s, 0, x);
    reveal_strlit("family");
    reveal_strlit("mvbind");
    reveal_strlit("cbind");
    reveal_strlit("Surv");
    assert(header_at(s, 0) is None) by {
        if eats(s, 0, "family"@) {
            lemma_word_in_name(s, 0, x, "family"@);
            if 6 < n {
                lemma_no_space(s, 6);
            }
            assert(padded_char_at(s, 6, '=') is None);
        }
    }
    lemma_no_open(s, 0, x, "mvbind"@);
    lemma_no_open(s, 0, x, "cbind"@);
    lemma_no_open(s, 0, x, "Surv"@);
    assert(dotted_at(s, 0) == Some((x, n))) by {
        assert(dotted_rest(s, n, x) == (x, n));
    }
    assert(call_at(s, 0) is None);
    assert(multi_at(s, 0, "mvbind"@) is None);
    assert(multi_at(s, 0, "cbind"@) is None);
    assert(surv_at(s, 0) is None);
    assert(response_basic_at(s, 0) == Some((ResponseView::Var(x), n)));
    let q = behind(s, 0, x);
    assert(response_at(s, 0) == Some(((ResponseView::Var(x), Seq::<AtermView>::empty()), q)));
}

/// The text `x1 + x2 + ..` and what follows it is made of these parts.
proof fn lemma_bare_shape(xs: Seq<Text>, tail: Seq<char>)
    requires
        xs.len() >= 1,
        tail.len() == 0 || tail[0] == ',',
    ensures
        stands(xs[0] + rest_text(xs, 1) + tail, 0, xs[0]),
        rest_stands(
            xs[0] + rest_text(xs, 1) + tail,
            xs[0].len() as int,
            (xs[0] + rest_text(xs, 1)).len() as int,
            xs,
            1,
        ),
        (xs[0] + rest_text(xs, 1) + tail).subrange(
            (xs[0] + rest_text(xs, 1)).len() as int,
            (xs[0] + rest_text(xs, 1) + tail).len() as int,
        ) == tail,
{
    reveal_strlit(" + ");
    let x = xs[0];
    let more = rest_text(xs, 1);
    let body = x + more;
    let s = body + tail;
    let e = x.len() as int;
    let end = body.len() as int;
    assert(s.subrange(0, e) =~= x);
    assert(s.subrange(e, end) =~= more);
    assert(s.subrange(end, s.len() as int) =~= tail);
    if tail.len() > 0 {
        assert(s[end] == tail[0]);
    }
    if 1 < xs.len() {
        assert(more == " + "@ + xs[1] + rest_text(xs, 2));
        assert(s[e] == ' ') by {
            assert(more[0] == ' ');
            assert(s.subrange(e, end)[0] == s[e]);
        }
        assert(s[e + 1] == '+') by {
            assert(more[1] == '+');
            assert(s.subrange(e, end)[1] == s[e + 1]);
        }
    } else {
        assert(more.len() == 0);
    }
}

/// A text of these parts stands for the model of these parts without
/// response.
#[verifier::rlimit(30)]
proof fn lemma_bare_reads(s: Seq<char>, xs: Seq<Text>, h: Option<(Text, Option<Text>)>, end: int)
    requires
        xs.len() >= 1,
        forall|j: int| 0 <= j < xs.len() ==> is_variable_name(#[trigger] xs[j]),
        is_header(h),
        stands(s, 0, xs[0]),
        rest_stands(s, xs[0].len() as int, end, xs, 1),
        s.subrange(end, s.len() as int) == header_tail(h),
    ensures
        model_at(s) == Some(bare_model(xs, h)),
{
    assert(is_variable_name(xs[0]));
    lemma_no_response(s, xs[0]);
    lemma_sum_reads(s, 0, xs, end);
    lemma_header_reads(s, end, h);
    assert(expr_at(s, 0) == Some((one_or_sum(variables(xs)), end)));
    assert(crate::formula::behind(header_at(s, 0)) == 0);
    assert(rhs_only_form(s) == Some(bare_model(xs, h)));
}

/// A sum of variables without response, with a family and a link without
/// arguments behind it or without header, reads back from its text: the text
/// of the model `x1 + x2 + .., family=f(), link=l` stands for that model, for
/// all identifiers `f` and `l` and all identifiers `x1`, `x2`, .. that are no
/// booleans.
pub proof fn sum_without_response_reads_back(xs: Seq<Text>, h: Option<(Text, Option<Text>)>)
    requires
        xs.len() >= 1,
        forall|j: int| 0 <= j < xs.len() ==> is_variable_name(#[trigger] xs[j]),
        is_header(h),
    ensures
        model_at(model_text(bare_model(xs, h))) == Some(bare_model(xs, h)),
        model_text(bare_model(xs, h)) == join(xs, " + "@) + header_tail(h),
        reads_back(bare_model(xs, h)),
{
    lemma_bare_text(xs, h);
    lemma_join_front(xs);
    let tail = header_tail(h);
    let body = xs[0] + rest_text(xs, 1);
    assert(tail.len() == 0 || tail[0] == ',') by {
        reveal_strlit(", family=");
    }
    lemma_bare_shape(xs, tail);
    lemma_bare_reads(body + tail, xs, h, body.len() as int);
}

/// A formula with a variable as response and a sum of variables as
/// right-hand side reads back from its text: the text of the model
/// `y ~ x1 + x2 + ..` stands for that model, for every identifier `y` and all
/// identifiers `x1`, `x2`, .. that are no booleans.
pub proof fn sum_of_variables_reads_back(y: Text, xs: Seq<Text>)
    requires
        is_name(y),
        xs.len() >= 1,
        forall|j: int| 0 <= j < xs.len() ==> is_variable_name(#[trigger] xs[j]),
    ensures
        model_at(model_text(sum_model(y, xs))) == Some(sum_model(y, xs)),
        model_text(sum_model(y, xs)) == y + " ~ "@ + join(xs, " + "@),
        reads_back(sum_model(y, xs)),
{
    sum_with_header_reads_back(y, xs, None);
    assert(headed_model(y, xs, None) == sum_model(y, xs));
    assert(y + " ~ "@ + join(xs, " + "@) + header_tail(None) =~= y + " ~ "@ + join(xs, " + "@));
}

} // verus!
