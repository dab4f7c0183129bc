//! Rendering a model back to formula text that the grammar reads: the header
//! stands behind the formula, strings are quoted with their quotes and
//! backslashes escaped, and a part of an expression stands in parentheses
//! wherever the grammar would read it otherwise.

use crate::ast::{
    aterms_view, autocors_view, chain_view, dpars_view, exprs_view, families_view, named_view,
    option_expr_view, push_text, texts_view, Aterm, AtermView, AutocorView, DparView, Expr,
    ExprView, Family, FamilyView, Formula, FormulaView, GroupKind, GroupOp, GroupSpec,
    GroupSpecView, Link, LinkView, ModelSpec, ModelSpecView, NestKind, Response, ResponseView,
    SmoothKind, Text,
};
use crate::text::join;
use vstd::prelude::*;

verus! {

// ---------------------------------------------------------------------------
// What the text of a model is
// ---------------------------------------------------------------------------

pub open spec fn nest_op_text(kind: NestKind) -> Text {
    match kind {
        NestKind::Slash => "/"@,
        NestKind::In => "%in%"@,
    }
}

pub open spec fn group_sep_text(kind: GroupKind) -> Text {
    match kind {
        GroupKind::Correlated => "|"@,
        GroupKind::Uncorrelated => "||"@,
    }
}

pub open spec fn group_op_text(op: GroupOp) -> Text {
    match op {
        GroupOp::Cross => ":"@,
        GroupOp::Nest => "/"@,
        GroupOp::Split => "+"@,
    }
}

pub open spec fn smooth_kind_text(kind: SmoothKind) -> Text {
    match kind {
        SmoothKind::S => "s"@,
        SmoothKind::T2 => "t2"@,
        SmoothKind::TE => "te"@,
        SmoothKind::TI => "ti"@,
    }
}

/// The text of a chain of grouping variables: each operator written before
/// the variable that carries it, nothing between the links.
pub open spec fn chain_text(chain: Seq<(Text, Option<GroupOp>)>) -> Text
    decreases chain.len(),
{
    if chain.len() == 0 {
        Seq::empty()
    } else {
        let link = chain.last();
        chain_text(chain.drop_last()) + (match link.1 {
            Some(op) => group_op_text(op) + link.0,
            None => link.0,
        })
    }
}

/// A text with a backslash before every `"` and every backslash.
pub open spec fn escaped(t: Text) -> Text
    decreases t.len(),
{
    if t.len() == 0 {
        Seq::empty()
    } else if t.last() == '"' || t.last() == '\\' {
        escaped(t.drop_last()).push('\\').push(t.last())
    } else {
        escaped(t.drop_last()).push(t.last())
    }
}

/// A text as a string in double quotes.
pub open spec fn quoted(t: Text) -> Text {
    "\""@ + escaped(t) + "\""@
}

/// How tightly an expression holds together: a sum 0, a product 1, a nesting
/// 2, an interaction 3, a power 4, everything else 5.
pub open spec fn level(e: ExprView) -> nat {
    match e {
        ExprView::Sum(_) => 0,
        ExprView::Prod(_) => 1,
        ExprView::Nest { .. } => 2,
        ExprView::Interaction(_) => 3,
        ExprView::Pow { .. } => 4,
        _ => 5,
    }
}

/// A text in parentheses where the expression that it stands for holds
/// together less tightly than its place asks.
pub open spec fn held(t: Text, own: nat, least: nat) -> Text {
    if own < least {
        "("@ + t + ")"@
    } else {
        t
    }
}

/// The text of an expression. A part stands in parentheses wherever the
/// grammar would read it otherwise: a sum in a sum, a sum or a product in a
/// product, anything but an interaction or tighter on the right of a
/// nesting, anything looser than a power in an interaction, and anything but
/// an atom under a power.
pub open spec fn expr_text(e: ExprView) -> Text
    decreases e,
{
    match e {
        ExprView::Num(n) => n,
        ExprView::Bool(b) => if b {
            "true"@
        } else {
            "false"@
        },
        ExprView::Str(s) => quoted(s),
        ExprView::Var(v) => v,
        ExprView::Sum(ts) => join(list_texts(ts, 1), " + "@),
        ExprView::Prod(ts) => join(list_texts(ts, 2), " * "@),
        ExprView::Interaction(ts) => join(list_texts(ts, 4), ":"@),
        ExprView::Nest { outer, inner, kind } => held(expr_text(*outer), level(*outer), 2) + " "@
            + nest_op_text(kind) + " "@ + held(expr_text(*inner), level(*inner), 3),
        ExprView::Pow { base, exp } => held(expr_text(*base), level(*base), 5) + "^"@ + (if *exp
            is Num || *exp is Intercept {
            expr_text(*exp)
        } else {
            "("@ + expr_text(*exp) + ")"@
        }),
        ExprView::Group { inner, spec, kind, id } => match id {
            Some(id) => "("@ + expr_text(*inner) + "|"@ + id + "|"@ + group_spec_text(spec)
                + ")"@,
            None => "("@ + expr_text(*inner) + group_sep_text(kind) + group_spec_text(spec)
                + ")"@,
        },
        ExprView::Smooth { kind, vars, args } => smooth_kind_text(kind) + "("@ + join(
            seq![join(vars, ", "@)] + named_texts(args),
            ", "@,
        ) + ")"@,
        ExprView::Func { name, args } => name + "("@ + join(list_texts(args, 0), ", "@)
            + ")"@,
        ExprView::Identity(inner) => "I("@ + expr_text(*inner) + ")"@,
        ExprView::Intercept(b) => if b {
            "1"@
        } else {
            "0"@
        },
        ExprView::Dot => "."@,
    }
}

/// The texts of the expressions of a list, each in parentheses where it
/// holds together less tightly than `least`.
pub open spec fn list_texts(ts: Seq<ExprView>, least: nat) -> Seq<Text>
    decreases ts,
{
    Seq::new(
        ts.len(),
        |i: int|
            if 0 <= i < ts.len() {
                held(expr_text(ts[i]), level(ts[i]), least)
            } else {
                Seq::empty()
            },
    )
}

/// The texts `name=value` of a list of named arguments.
pub open spec fn named_texts(args: Seq<(Text, ExprView)>) -> Seq<Text>
    decreases args,
{
    Seq::new(
        args.len(),
        |i: int|
            if 0 <= i < args.len() {
                args[i].0 + "="@ + expr_text(args[i].1)
            } else {
                Seq::empty()
            },
    )
}

pub open spec fn group_spec_text(g: GroupSpecView) -> Text
    decreases g,
{
    match g {
        GroupSpecView::Expr(chain) => chain_text(chain),
        GroupSpecView::Func { name, args } => name + "("@ + join(list_texts(args, 0), ", "@)
            + ")"@,
    }
}

pub open spec fn quoted_texts(names: Seq<Text>) -> Seq<Text> {
    Seq::new(names.len(), |i: int| quoted(names[i]))
}

pub open spec fn family_text(f: FamilyView) -> Text
    decreases f,
{
    match f {
        FamilyView::Builtin(name, args) => name + "("@ + join(list_texts(args, 0), ", "@)
            + ")"@,
        FamilyView::Mixture(fs) => "mixture("@ + join(family_texts(fs), ", "@) + ")"@,
        FamilyView::Custom { name, dpars } => "custom_family("@ + join(
            seq![quoted(name)] + quoted_texts(dpars),
            ", "@,
        ) + ")"@,
    }
}

pub open spec fn family_texts(fs: Seq<FamilyView>) -> Seq<Text>
    decreases fs,
{
    Seq::new(
        fs.len(),
        |i: int|
            if 0 <= i < fs.len() {
                family_text(fs[i])
            } else {
                Seq::empty()
            },
    )
}

pub open spec fn link_text(l: LinkView) -> Text {
    match l {
        LinkView::Named(name, args) => if args.len() == 0 {
            name
        } else {
            name + "("@ + join(list_texts(args, 0), ", "@) + ")"@
        },
    }
}

pub open spec fn response_text(r: ResponseView) -> Text {
    match r {
        ResponseView::Var(v) => v,
        ResponseView::Multi(vs) => "cbind("@ + join(vs, ", "@) + ")"@,
        ResponseView::Surv { time, event, time2 } => match time2 {
            Some(t2) => "Surv("@ + expr_text(time) + ", "@ + expr_text(event) + ", "@ + expr_text(
                t2,
            ) + ")"@,
            None => "Surv("@ + expr_text(time) + ", "@ + expr_text(event) + ")"@,
        },
        ResponseView::Func { name, args } => name + "("@ + join(list_texts(args, 0), ", "@)
            + ")"@,
        ResponseView::BinomialTrials { successes, trials } => expr_text(successes)
            + " | trials("@ + expr_text(trials) + ")"@,
    }
}

pub open spec fn call_text(name: Text, arg: ExprView) -> Text {
    name + "("@ + expr_text(arg) + ")"@
}

/// The bounds of `trunc`, those that are there.
pub open spec fn trunc_parts(lb: Option<ExprView>, ub: Option<ExprView>) -> Seq<Text> {
    (match lb {
        Some(e) => seq!["lb="@ + expr_text(e)],
        None => Seq::empty(),
    }) + (match ub {
        Some(e) => seq!["ub="@ + expr_text(e)],
        None => Seq::empty(),
    })
}

pub open spec fn aterm_text(a: AtermView) -> Text {
    match a {
        AtermView::Se(e) => call_text("se"@, e),
        AtermView::Weights(e) => call_text("weights"@, e),
        AtermView::Trials(e) => call_text("trials"@, e),
        AtermView::Cens(e) => call_text("cens"@, e),
        AtermView::Trunc { lb, ub } => "trunc("@ + join(trunc_parts(lb, ub), ", "@) + ")"@,
        AtermView::Subset(e) => call_text("subset"@, e),
        AtermView::Rate(e) => call_text("rate"@, e),
        AtermView::Thres { gr } => match gr {
            Some(e) => "thres(gr="@ + expr_text(e) + ")"@,
            None => "thres()"@,
        },
        AtermView::Dec(e) => call_text("dec"@, e),
        AtermView::Cat(e) => call_text("cat"@, e),
        AtermView::Index(e) => call_text("index"@, e),
        AtermView::VReal(es) => "vreal"@ + "("@ + join(list_texts(es, 0), ", "@) + ")"@,
        AtermView::VInt(es) => "vint"@ + "("@ + join(list_texts(es, 0), ", "@) + ")"@,
        AtermView::Mi => "mi()"@,
    }
}

pub open spec fn aterm_texts(s: Seq<AtermView>) -> Seq<Text> {
    Seq::new(s.len(), |i: int| aterm_text(s[i]))
}

pub open spec fn dpar_texts(s: Seq<DparView>) -> Seq<Text> {
    Seq::new(s.len(), |i: int| s[i].name + " ~ "@ + expr_text(s[i].rhs))
}

pub open spec fn autocor_text(a: AutocorView) -> Text {
    a.name + "("@ + join(named_texts(a.args), ", "@) + ")"@
}

pub open spec fn autocor_texts(s: Seq<AutocorView>) -> Seq<Text> {
    Seq::new(s.len(), |i: int| autocor_text(s[i]))
}

/// The header of a model, written behind the formula: `, family=..`, and
/// `, link=..` where there is a family and a link.
pub open spec fn header_text(family: Option<FamilyView>, link: Option<LinkView>) -> Text {
    match family {
        Some(f) => ", family="@ + family_text(f) + (match link {
            Some(l) => ", link="@ + link_text(l),
            None => Seq::empty(),
        }),
        None => Seq::empty(),
    }
}

/// The main formula: the right-hand side alone where the response has no
/// text, else response, modifiers, `~` and right-hand side.
pub open spec fn formula_text(f: FormulaView) -> Text {
    let lhs = response_text(f.lhs);
    let rhs = expr_text(f.rhs);
    if lhs.len() == 0 {
        rhs
    } else if f.aterms.len() == 0 {
        lhs + " ~ "@ + rhs
    } else {
        lhs + " | "@ + join(aterm_texts(f.aterms), " | "@) + " ~ "@ + rhs
    }
}

/// The text of a model: formula, distributional parameters and
/// autocorrelation terms, joined by ` + `, and the header behind them.
pub open spec fn model_text(m: ModelSpecView) -> Text {
    join(
        seq![formula_text(m.formula)] + dpar_texts(m.dpars) + autocor_texts(m.autocor),
        " + "@,
    ) + header_text(m.family, m.link)
}

// ---------------------------------------------------------------------------
// Rendering
// ---------------------------------------------------------------------------

pub proof fn lemma_join_push(parts: Seq<Text>, last: Text, sep: Text)
    ensures
        join(parts.push(last), sep) == if parts.len() == 0 {
            last
        } else {
            join(parts, sep) + sep + last
        },
{
    let all = parts.push(last);
    assert(all.drop_last() =~= parts);
    assert(all.last() == last);
}

/// Joins texts with a separator.
pub fn join_strings(parts: &Vec<String>, sep: &str) -> (r: String)
    ensures
        r@ == join(texts_view(parts@), sep@),
{
    let mut out = String::new();
    let mut i: usize = 0;
    while i < parts.len()
        invariant
            i <= parts.len(),
            out@ == join(texts_view(parts@).take(i as int), sep@),
        decreases parts.len() - i,
    {
        proof {
            let all = texts_view(parts@);
            lemma_join_push(all.take(i as int), all[i as int], sep@);
            assert(all.take(i + 1) =~= all.take(i as int).push(all[i as int]));
        }
        if i > 0 {
            out.append(sep);
        }
        out.append(parts[i].as_str());
        proof {
            if i == 0 {
                assert(out@ =~= parts@[0]@);
            }
        }
        i += 1;
    }
    assert(texts_view(parts@).take(parts.len() as int) =~= texts_view(parts@));
    out
}

/// A text as a string in double quotes.
pub fn quote(t: &str) -> (r: String)
    ensures
        r@ == quoted(t@),
{
    let cs = crate::text::chars_of(t);
    let mut out = String::from_str("\"");
    let ghost open = out@;
    let mut i: usize = 0;
    assert(cs@.take(0) =~= Seq::<char>::empty());
    assert(out@ =~= open + escaped(cs@.take(0)));
    while i < cs.len()
        invariant
            i <= cs.len(),
            open == "\""@,
            out@ == open + escaped(cs@.take(i as int)),
        decreases cs.len() - i,
    {
        proof {
            assert(cs@.take(i + 1).drop_last() =~= cs@.take(i as int));
            assert(cs@.take(i + 1).last() == cs@[i as int]);
        }
        let c = cs[i];
        if c == '"' || c == '\\' {
            out.push('\\');
        }
        out.push(c);
        assert(out@ =~= open + escaped(cs@.take(i + 1)));
        i += 1;
    }
    assert(cs@.take(cs.len() as int) =~= cs@);
    out.append("\"");
    out
}

pub fn prefixed(prefix: &str, body: &str) -> (r: String)
    ensures
        r@ == prefix@ + body@,
{
    let mut out = String::from_str(prefix);
    out.append(body);
    out
}

pub fn wrapped(open: &str, inner: &str, close: &str) -> (r: String)
    ensures
        r@ == open@ + inner@ + close@,
{
    let mut out = String::from_str(open);
    out.append(inner);
    out.append(close);
    out
}

pub fn pretty_expr(e: &Expr) -> (r: String)
    ensures
        r@ == expr_text(e@),
    decreases e,
{
    match e {
        Expr::Num(n) => n.clone(),
        Expr::Bool(b) => if *b {
            String::from_str("true")
        } else {
            String::from_str("false")
        },
        Expr::Str(s) => quote(s.as_str()),
        Expr::Var(v) => v.clone(),
        Expr::Sum(ts) => {
            let parts = render_list(ts, 1);
            join_strings(&parts, " + ")
        },
        Expr::Prod(ts) => {
            let parts = render_list(ts, 2);
            join_strings(&parts, " * ")
        },
        Expr::Interaction(ts) => {
            let parts = render_list(ts, 4);
            join_strings(&parts, ":")
        },
        Expr::Nest { outer, inner, kind } => {
            let mut out = hold(pretty_expr(outer), level_of(outer), 2);
            out.append(" ");
            match kind {
                NestKind::Slash => out.append("/"),
                NestKind::In => out.append("%in%"),
            }
            out.append(" ");
            let right = hold(pretty_expr(inner), level_of(inner), 3);
            out.append(right.as_str());
            out
        },
        Expr::Pow { base, exp } => {
            let mut out = hold(pretty_expr(base), level_of(base), 5);
            out.append("^");
            let power = pretty_expr(exp);
            let plain = match **exp {
                Expr::Num(_) => true,
                Expr::Intercept(_) => true,
                _ => false,
            };
            if plain {
                out.append(power.as_str());
            } else {
                out.append("(");
                out.append(power.as_str());
                out.append(")");
            }
            out
        },
        Expr::Group { inner, spec, kind, id } => {
            let mut out = String::from_str("(");
            let body = pretty_expr(inner);
            out.append(body.as_str());
            match id {
                Some(id) => {
                    out.append("|");
                    out.append(id.as_str());
                    out.append("|");
                },
                None => match kind {
                    GroupKind::Correlated => out.append("|"),
                    GroupKind::Uncorrelated => out.append("||"),
                },
            }
            let by = pretty_group_spec(spec);
            out.append(by.as_str());
            out.append(")");
            out
        },
        Expr::Smooth { kind, vars, args } => {
            let mut out = match kind {
                SmoothKind::S => String::from_str("s"),
                SmoothKind::T2 => String::from_str("t2"),
                SmoothKind::TE => String::from_str("te"),
                SmoothKind::TI => String::from_str("ti"),
            };
            out.append("(");
            let mut parts: Vec<String> = Vec::new();
            push_text(&mut parts, join_strings(vars, ", "));
            let named = render_named(args);
            let mut i: usize = 0;
            while i < named.len()
                invariant
                    i <= named.len(),
                    texts_view(parts@) == seq![join(texts_view(vars@), ", "@)] + texts_view(
                        named@,
                    ).take(i as int),
                decreases named.len() - i,
            {
                push_text(&mut parts, named[i].clone());
                assert(texts_view(named@).take(i + 1) =~= texts_view(named@).take(
                    i as int,
                ).push(named@[i as int]@));
                assert(texts_view(parts@) =~= seq![join(texts_view(vars@), ", "@)] + texts_view(
                    named@,
                ).take(i + 1));
                i += 1;
            }
            assert(texts_view(named@).take(named.len() as int) =~= texts_view(named@));
            let inside = join_strings(&parts, ", ");
            out.append(inside.as_str());
            out.append(")");
            out
        },
        Expr::Func { name, args } => {
            let parts = render_list(args, 0);
            let inside = join_strings(&parts, ", ");
            let mut out = name.clone();
            out.append("(");
            out.append(inside.as_str());
            out.append(")");
            out
        },
        Expr::Identity(inner) => {
            let body = pretty_expr(inner);
            wrapped("I(", body.as_str(), ")")
        },
        Expr::Intercept(b) => if *b {
            String::from_str("1")
        } else {
            String::from_str("0")
        },
        Expr::Dot => String::from_str("."),
    }
}

/// How tightly an expression holds together.
pub fn level_of(e: &Expr) -> (r: u8)
    ensures
        r == level(e@),
{
    match e {
        Expr::Sum(_) => 0,
        Expr::Prod(_) => 1,
        Expr::Nest { .. } => 2,
        Expr::Interaction(_) => 3,
        Expr::Pow { .. } => 4,
        _ => 5,
    }
}

/// A text in parentheses where its expression holds together less tightly
/// than its place asks.
pub fn hold(text: String, own: u8, least: u8) -> (r: String)
    ensures
        r@ == held(text@, own as nat, least as nat),
{
    if own < least {
        wrapped("(", text.as_str(), ")")
    } else {
        text
    }
}

fn render_list(ts: &Vec<Expr>, least: u8) -> (r: Vec<String>)
    ensures
        texts_view(r@) == list_texts(exprs_view(ts@), least as nat),
    decreases ts,
{
    let mut parts: Vec<String> = Vec::new();
    let mut i: usize = 0;
    while i < ts.len()
        invariant
            i <= ts.len(),
            parts.len() == i,
            texts_view(parts@) == list_texts(exprs_view(ts@), least as nat).take(i as int),
        decreases ts.len() - i,
    {
        proof {
            assert(decreases_to!(*ts => ts[i as int]));
        }
        let part = hold(pretty_expr(&ts[i]), level_of(&ts[i]), least);
        push_text(&mut parts, part);
        proof {
            let all = list_texts(exprs_view(ts@), least as nat);
            assert(all.take(i + 1) =~= all.take(i as int).push(all[i as int]));
        }
        i += 1;
    }
    assert(list_texts(exprs_view(ts@), least as nat).take(ts.len() as int) =~= list_texts(
        exprs_view(ts@),
        least as nat,
    ));
    parts
}

fn render_named(args: &Vec<(String, Expr)>) -> (r: Vec<String>)
    ensures
        texts_view(r@) == named_texts(named_view(args@)),
    decreases args,
{
    let mut parts: Vec<String> = Vec::new();
    let mut i: usize = 0;
    while i < args.len()
        invariant
            i <= args.len(),
            parts.len() == i,
            texts_view(parts@) == named_texts(named_view(args@)).take(i as int),
        decreases args.len() - i,
    {
        proof {
            assert(decreases_to!(*args => args[i as int]));
            assert(decreases_to!(args[i as int] => args[i as int].1));
        }
        let value = pretty_expr(&args[i].1);
        let part = wrapped(args[i].0.as_str(), "=", value.as_str());
        push_text(&mut parts, part);
        proof {
            let all = named_texts(named_view(args@));
            assert(all.take(i + 1) =~= all.take(i as int).push(all[i as int]));
        }
        i += 1;
    }
    assert(named_texts(named_view(args@)).take(args.len() as int) =~= named_texts(
        named_view(args@),
    ));
    parts
}

fn pretty_chain(chain: &Vec<(String, Option<GroupOp>)>) -> (r: String)
    ensures
        r@ == chain_text(chain_view(chain@)),
{
    let mut out = String::new();
    let mut i: usize = 0;
    while i < chain.len()
        invariant
            i <= chain.len(),
            out@ == chain_text(chain_view(chain@).take(i as int)),
        decreases chain.len() - i,
    {
        proof {
            let all = chain_view(chain@);
            assert(all.take(i + 1).drop_last() =~= all.take(i as int));
            assert(all.take(i + 1).last() == all[i as int]);
        }
        match chain[i].1 {
            Some(GroupOp::Cross) => out.append(":"),
            Some(GroupOp::Nest) => out.append("/"),
            Some(GroupOp::Split) => out.append("+"),
            None => {},
        }
        out.append(chain[i].0.as_str());
        i += 1;
    }
    assert(chain_view(chain@).take(chain.len() as int) =~= chain_view(chain@));
    out
}

fn pretty_call(name: &str, args: &Vec<Expr>) -> (r: String)
    ensures
        r@ == name@ + "("@ + join(list_texts(exprs_view(args@), 0), ", "@) + ")"@,
{
    let parts = render_list(args, 0);
    let inside = join_strings(&parts, ", ");
    let mut out = String::from_str(name);
    out.append("(");
    out.append(inside.as_str());
    out.append(")");
    out
}

fn pretty_group_spec(spec: &GroupSpec) -> (r: String)
    ensures
        r@ == group_spec_text(spec@),
    decreases spec,
{
    match spec {
        GroupSpec::Expr(chain) => pretty_chain(&chain.0),
        GroupSpec::Func { name, args } => {
            let parts = render_list(args, 0);
            let inside = join_strings(&parts, ", ");
            let mut out = name.clone();
            out.append("(");
            out.append(inside.as_str());
            out.append(")");
            out
        },
    }
}

fn pretty_family(family: &Family) -> (r: String)
    ensures
        r@ == family_text(family@),
    decreases family,
{
    match family {
        Family::Builtin(name, args) => pretty_call(name.as_str(), args),
        Family::Mixture(fs) => {
            let mut parts: Vec<String> = Vec::new();
            let mut i: usize = 0;
            while i < fs.len()
                invariant
                    *family == Family::Mixture(*fs),
                    i <= fs.len(),
                    texts_view(parts@) == family_texts(families_view(fs@)).take(i as int),
                decreases fs.len() - i,
            {
                proof {
                    assert(decreases_to!(*family => family->Mixture_0));
                    assert(decreases_to!(*fs => fs[i as int]));
                }
                push_text(&mut parts, pretty_family(&fs[i]));
                proof {
                    let all = family_texts(families_view(fs@));
                    assert(all.take(i + 1) =~= all.take(i as int).push(all[i as int]));
                }
                i += 1;
            }
            assert(family_texts(families_view(fs@)).take(fs.len() as int) =~= family_texts(
                families_view(fs@),
            ));
            let inside = join_strings(&parts, ", ");
            wrapped("mixture(", inside.as_str(), ")")
        },
        Family::Custom { name, dpars } => {
            let mut parts: Vec<String> = Vec::new();
            push_text(&mut parts, quote(name.as_str()));
            let ghost head = seq![quoted(name@)];
            let ghost rest = quoted_texts(texts_view(dpars@));
            assert(texts_view(parts@) =~= head + rest.take(0));
            let mut i: usize = 0;
            while i < dpars.len()
                invariant
                    i <= dpars.len(),
                    rest == quoted_texts(texts_view(dpars@)),
                    texts_view(parts@) == head + rest.take(i as int),
                decreases dpars.len() - i,
            {
                push_text(&mut parts, quote(dpars[i].as_str()));
                proof {
                    assert(rest.take(i + 1) =~= rest.take(i as int).push(rest[i as int]));
                    assert(texts_view(parts@) =~= head + rest.take(i + 1));
                }
                i += 1;
            }
            assert(rest.take(dpars.len() as int) =~= rest);
            let inside = join_strings(&parts, ", ");
            wrapped("custom_family(", inside.as_str(), ")")
        },
    }
}

fn pretty_link(link: &Link) -> (r: String)
    ensures
        r@ == link_text(link@),
{
    match link {
        Link::Named(name, args) => {
            if args.len() == 0 {
                name.clone()
            } else {
                pretty_call(name.as_str(), args)
            }
        },
    }
}

fn pretty_response(response: &Response) -> (r: String)
    ensures
        r@ == response_text(response@),
{
    match response {
        Response::Var(v) => v.clone(),
        Response::Multi(vs) => {
            let inside = join_strings(vs, ", ");
            wrapped("cbind(", inside.as_str(), ")")
        },
        Response::Surv { time, event, time2 } => {
            let mut out = String::from_str("Surv(");
            let t = pretty_expr(time);
            out.append(t.as_str());
            out.append(", ");
            let ev = pretty_expr(event);
            out.append(ev.as_str());
            match time2 {
                Some(t2) => {
                    out.append(", ");
                    let second = pretty_expr(t2);
                    out.append(second.as_str());
                },
                None => {},
            }
            out.append(")");
            out
        },
        Response::Func { name, args } => pretty_call(name.as_str(), args),
        Response::BinomialTrials { successes, trials } => {
            let mut out = pretty_expr(successes);
            out.append(" | trials(");
            let n = pretty_expr(trials);
            out.append(n.as_str());
            out.append(")");
            out
        },
    }
}

fn pretty_unary(name: &str, arg: &Expr) -> (r: String)
    ensures
        r@ == call_text(name@, arg@),
{
    let body = pretty_expr(arg);
    let mut out = String::from_str(name);
    out.append("(");
    out.append(body.as_str());
    out.append(")");
    out
}

fn pretty_aterm(aterm: &Aterm) -> (r: String)
    ensures
        r@ == aterm_text(aterm@),
{
    match aterm {
        Aterm::Se(e) => pretty_unary("se", e),
        Aterm::Weights(e) => pretty_unary("weights", e),
        Aterm::Trials(e) => pretty_unary("trials", e),
        Aterm::Cens(e) => pretty_unary("cens", e),
        Aterm::Trunc { lb, ub } => {
            let mut parts: Vec<String> = Vec::new();
            assert(texts_view(parts@) =~= Seq::<Text>::empty());
            match lb {
                Some(e) => {
                    let body = pretty_expr(e);
                    push_text(&mut parts, prefixed("lb=", body.as_str()));
                },
                None => {},
            }
            let ghost first = texts_view(parts@);
            assert(first =~= match option_expr_view(*lb) {
                Some(e) => seq!["lb="@ + expr_text(e)],
                None => Seq::empty(),
            });
            match ub {
                Some(e) => {
                    let body = pretty_expr(e);
                    push_text(&mut parts, prefixed("ub=", body.as_str()));
                },
                None => {},
            }
            assert(texts_view(parts@) =~= first + match option_expr_view(*ub) {
                Some(e) => seq!["ub="@ + expr_text(e)],
                None => Seq::empty(),
            });
            let inside = join_strings(&parts, ", ");
            wrapped("trunc(", inside.as_str(), ")")
        },
        Aterm::Subset(e) => pretty_unary("subset", e),
        Aterm::Rate(e) => pretty_unary("rate", e),
        Aterm::Thres { gr } => match gr {
            Some(e) => {
                let body = pretty_expr(e);
                wrapped("thres(gr=", body.as_str(), ")")
            },
            None => String::from_str("thres()"),
        },
        Aterm::Dec(e) => pretty_unary("dec", e),
        Aterm::Cat(e) => pretty_unary("cat", e),
        Aterm::Index(e) => pretty_unary("index", e),
        Aterm::VReal(es) => pretty_call("vreal", es),
        Aterm::VInt(es) => pretty_call("vint", es),
        Aterm::Mi => String::from_str("mi()"),
    }
}

fn pretty_formula(formula: &Formula) -> (r: String)
    ensures
        r@ == formula_text(formula@),
{
    let lhs = pretty_response(&formula.lhs);
    let rhs = pretty_expr(&formula.rhs);
    if lhs.as_str().unicode_len() == 0 {
        return rhs;
    }
    let mut out = lhs;
    if formula.aterms.len() > 0 {
        let mut parts: Vec<String> = Vec::new();
        let mut i: usize = 0;
        while i < formula.aterms.len()
            invariant
                i <= formula.aterms.len(),
                texts_view(parts@) == aterm_texts(aterms_view(formula.aterms@)).take(i as int),
            decreases formula.aterms.len() - i,
        {
            push_text(&mut parts, pretty_aterm(&formula.aterms[i]));
            proof {
                let all = aterm_texts(aterms_view(formula.aterms@));
                assert(all.take(i + 1) =~= all.take(i as int).push(all[i as int]));
            }
            i += 1;
        }
        assert(aterm_texts(aterms_view(formula.aterms@)).take(formula.aterms.len() as int)
            =~= aterm_texts(aterms_view(formula.aterms@)));
        out.append(" | ");
        let mods = join_strings(&parts, " | ");
        out.append(mods.as_str());
    }
    out.append(" ~ ");
    out.append(rhs.as_str());
    out
}

/// Renders a model as formula text.
pub fn pretty(spec: &ModelSpec) -> (r: String)
    ensures
        r@ == model_text(spec@),
{
    let mut parts: Vec<String> = Vec::new();
    assert(texts_view(parts@) =~= Seq::<Text>::empty());
    push_text(&mut parts, pretty_formula(&spec.formula));
    let ghost head = seq![formula_text(spec@.formula)];
    assert(texts_view(parts@) =~= head);
    let mut i: usize = 0;
    while i < spec.dpars.len()
        invariant
            i <= spec.dpars.len(),
            texts_view(parts@) == head + dpar_texts(dpars_view(spec.dpars@)).take(i as int),
        decreases spec.dpars.len() - i,
    {
        let body = pretty_expr(&spec.dpars[i].rhs);
        push_text(&mut parts, wrapped(spec.dpars[i].name.as_str(), " ~ ", body.as_str()));
        proof {
            let all = dpar_texts(dpars_view(spec.dpars@));
            assert(all.take(i + 1) =~= all.take(i as int).push(all[i as int]));
            assert(texts_view(parts@) =~= head + all.take(i + 1));
        }
        i += 1;
    }
    assert(dpar_texts(dpars_view(spec.dpars@)).take(spec.dpars.len() as int) =~= dpar_texts(
        dpars_view(spec.dpars@),
    ));
    let ghost mid = head + dpar_texts(dpars_view(spec.dpars@));
    let mut j: usize = 0;
    while j < spec.autocor.len()
        invariant
            j <= spec.autocor.len(),
            texts_view(parts@) == mid + autocor_texts(autocors_view(spec.autocor@)).take(
                j as int,
            ),
        decreases spec.autocor.len() - j,
    {
        let named = render_named(&spec.autocor[j].args);
        let inside = join_strings(&named, ", ");
        let mut part = spec.autocor[j].name.clone();
        part.append("(");
        part.append(inside.as_str());
        part.append(")");
        push_text(&mut parts, part);
        proof {
            let all = autocor_texts(autocors_view(spec.autocor@));
            assert(all.take(j + 1) =~= all.take(j as int).push(all[j as int]));
            assert(texts_view(parts@) =~= mid + all.take(j + 1));
        }
        j += 1;
    }
    assert(autocor_texts(autocors_view(spec.autocor@)).take(spec.autocor.len() as int)
        =~= autocor_texts(autocors_view(spec.autocor@)));
    let mut out = join_strings(&parts, " + ");
    match &spec.family {
        Some(family) => {
            let f = pretty_family(family);
            out.append(", family=");
            out.append(f.as_str());
            match &spec.link {
                Some(link) => {
                    let l = pretty_link(link);
                    out.append(", link=");
                    out.append(l.as_str());
                    assert(out@ =~= join(texts_view(parts@), " + "@) + (", family="@ + f@ + (
                    ", link="@ + l@)));
                },
                None => {
                    assert(out@ =~= join(texts_view(parts@), " + "@) + (", family="@ + f@
                        + Seq::<char>::empty()));
                },
            }
        },
        None => {
            assert(out@ =~= join(texts_view(parts@), " + "@) + Seq::<char>::empty());
        },
    }
    out
}

} // verus!
