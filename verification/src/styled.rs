//! Rendering a model as colored formula text: responses red, operators and
//! punctuation yellow, everything else blue.

use crate::ast::{
    aterms_view, autocors_view, chain_view, dpars_view, exprs_view, families_view, named_view,
    option_expr_view, push_text, texts_view, Aterm, AtermView, AutocorView, DparView, Expr,
    ExprView, Family, FamilyView, Formula, FormulaView, GroupKind, GroupOp, GroupSpec,
    GroupSpecView, Link, LinkView, ModelSpec, ModelSpecView, NestKind, Response, ResponseView,
    SmoothKind, Text,
};
use crate::formula::model_at;
use crate::paint::painted;
use crate::parser::parser;
use crate::pretty::{
    group_op_text, group_sep_text, join_strings, level, level_of, model_text, nest_op_text,
    prefixed, pretty, smooth_kind_text, wrapped,
};
use crate::simple_colored::{simply_colored, SimpleColoredPretty};
use crate::text::join;
use vstd::prelude::*;

verus! {

/// An operator or a piece of punctuation, in yellow.
pub open spec fn op(t: Text) -> Text {
    painted("33"@, t)
}

/// A function name, a variable of the right-hand side or a number, in blue.
pub open spec fn blue(t: Text) -> Text {
    painted("34"@, t)
}

/// A response variable, in red.
pub open spec fn red(t: Text) -> Text {
    painted("31"@, t)
}

/// A call: the name in blue, the parentheses and commas in yellow.
pub open spec fn call(name: Text, args: Seq<Text>) -> Text {
    blue(name) + op("("@) + join(args, op(", "@)) + op(")"@)
}

pub open spec fn colored_chain(chain: Seq<(Text, Option<GroupOp>)>) -> Text
    decreases chain.len(),
{
    if chain.len() == 0 {
        Seq::empty()
    } else {
        let link = chain.last();
        colored_chain(chain.drop_last()) + (match link.1 {
            Some(o) => op(group_op_text(o)) + link.0,
            None => link.0,
        })
    }
}

/// A colored text in yellow parentheses where the expression that it stands
/// for holds together less tightly than its place asks.
pub open spec fn colored_held(t: Text, own: nat, least: nat) -> Text {
    if own < least {
        op("("@) + t + op(")"@)
    } else {
        t
    }
}

/// The colored text of an expression.
pub open spec fn colored_expr(e: ExprView) -> Text
    decreases e,
{
    match e {
        ExprView::Num(n) => blue(n),
        ExprView::Bool(b) => if b {
            blue("true"@)
        } else {
            blue("false"@)
        },
        ExprView::Str(s) => op(crate::pretty::quoted(s)),
        ExprView::Var(v) => blue(v),
        ExprView::Sum(ts) => join(colored_list(ts, 1), op(" + "@)),
        ExprView::Prod(ts) => join(colored_list(ts, 2), op(" * "@)),
        ExprView::Interaction(ts) => join(colored_list(ts, 4), op(":"@)),
        ExprView::Nest { outer, inner, kind } => colored_held(
            colored_expr(*outer),
            level(*outer),
            2,
        ) + " "@ + op(nest_op_text(kind)) + " "@ + colored_held(
            colored_expr(*inner),
            level(*inner),
            3,
        ),
        ExprView::Pow { base, exp } => colored_held(colored_expr(*base), level(*base), 5) + op(
            "^"@,
        ) + (if *exp is Num || *exp is Intercept {
            colored_expr(*exp)
        } else {
            op("("@) + colored_expr(*exp) + op(")"@)
        }),
        ExprView::Group { inner, spec, kind, id } => match id {
            Some(id) => blue("("@) + colored_expr(*inner) + op("|"@) + id + op("|"@)
                + colored_group_spec(spec) + blue(")"@),
            None => blue("("@) + colored_expr(*inner) + op(group_sep_text(kind))
                + colored_group_spec(spec) + blue(")"@),
        },
        ExprView::Smooth { kind, vars, args } => call(
            smooth_kind_text(kind),
            seq![join(vars, op(", "@))] + colored_named(args),
        ),
        ExprView::Func { name, args } => call(name, colored_list(args, 0)),
        ExprView::Identity(inner) => blue("I"@) + op("("@) + colored_expr(*inner) + op(")"@),
        ExprView::Intercept(b) => if b {
            blue("1"@)
        } else {
            blue("0"@)
        },
        ExprView::Dot => op("."@),
    }
}

/// The colored texts of the expressions of a list, each in yellow
/// parentheses where it holds together less tightly than `least`.
pub open spec fn colored_list(ts: Seq<ExprView>, least: nat) -> Seq<Text>
    decreases ts,
{
    Seq::new(
        ts.len(),
        |i: int|
            if 0 <= i < ts.len() {
                colored_held(colored_expr(ts[i]), level(ts[i]), least)
            } else {
                Seq::empty()
            },
    )
}

pub open spec fn colored_named(args: Seq<(Text, ExprView)>) -> Seq<Text>
    decreases args,
{
    Seq::new(
        args.len(),
        |i: int|
            if 0 <= i < args.len() {
                args[i].0 + "="@ + colored_expr(args[i].1)
            } else {
                Seq::empty()
            },
    )
}

pub open spec fn colored_group_spec(g: GroupSpecView) -> Text
    decreases g,
{
    match g {
        GroupSpecView::Expr(chain) => colored_chain(chain),
        GroupSpecView::Func { name, args } => call(name, colored_list(args, 0)),
    }
}

pub open spec fn colored_family(f: FamilyView) -> Text
    decreases f,
{
    match f {
        FamilyView::Builtin(name, args) => call(name, colored_list(args, 0)),
        FamilyView::Mixture(fs) => call("mixture"@, colored_families(fs)),
        FamilyView::Custom { name, dpars } => call(
            "custom_family"@,
            seq![crate::pretty::quoted(name)] + crate::pretty::quoted_texts(dpars),
        ),
    }
}

pub open spec fn colored_families(fs: Seq<FamilyView>) -> Seq<Text>
    decreases fs,
{
    Seq::new(
        fs.len(),
        |i: int|
            if 0 <= i < fs.len() {
                colored_family(fs[i])
            } else {
                Seq::empty()
            },
    )
}

pub open spec fn colored_link(l: LinkView) -> Text {
    match l {
        LinkView::Named(name, args) => if args.len() == 0 {
            blue(name)
        } else {
            call(name, colored_list(args, 0))
        },
    }
}

pub open spec fn reds(names: Seq<Text>) -> Seq<Text> {
    Seq::new(names.len(), |i: int| red(names[i]))
}

pub open spec fn colored_response(r: ResponseView) -> Text {
    match r {
        ResponseView::Var(v) => red(v),
        ResponseView::Multi(vs) => call("cbind"@, reds(vs)),
        ResponseView::Surv { time, event, time2 } => match time2 {
            Some(t2) => blue("Surv"@) + op("("@) + colored_expr(time) + op(", "@) + colored_expr(
                event,
            ) + op(", "@) + colored_expr(t2) + op(")"@),
            None => blue("Surv"@) + op("("@) + colored_expr(time) + op(", "@) + colored_expr(
                event,
            ) + op(")"@),
        },
        ResponseView::Func { name, args } => call(name, colored_list(args, 0)),
        ResponseView::BinomialTrials { successes, trials } => colored_expr(successes) + " "@ + op(
            "|"@,
        ) + " "@ + blue("trials"@) + op("("@) + colored_expr(trials) + op(")"@),
    }
}

pub open spec fn colored_unary(name: Text, arg: ExprView) -> Text {
    blue(name) + op("("@) + colored_expr(arg) + op(")"@)
}

pub open spec fn colored_bounds(lb: Option<ExprView>, ub: Option<ExprView>) -> Seq<Text> {
    (match lb {
        Some(e) => seq!["lb="@ + colored_expr(e)],
        None => Seq::empty(),
    }) + (match ub {
        Some(e) => seq!["ub="@ + colored_expr(e)],
        None => Seq::empty(),
    })
}

pub open spec fn colored_aterm(a: AtermView) -> Text {
    match a {
        AtermView::Se(e) => colored_unary("se"@, e),
        AtermView::Weights(e) => colored_unary("weights"@, e),
        AtermView::Trials(e) => colored_unary("trials"@, e),
        AtermView::Cens(e) => colored_unary("cens"@, e),
        AtermView::Trunc { lb, ub } => call("trunc"@, colored_bounds(lb, ub)),
        AtermView::Subset(e) => colored_unary("subset"@, e),
        AtermView::Rate(e) => colored_unary("rate"@, e),
        AtermView::Thres { gr } => match gr {
            Some(e) => blue("thres"@) + op("(gr="@) + colored_expr(e) + op(")"@),
            None => blue("thres"@) + op("("@) + op(")"@),
        },
        AtermView::Dec(e) => colored_unary("dec"@, e),
        AtermView::Cat(e) => colored_unary("cat"@, e),
        AtermView::Index(e) => colored_unary("index"@, e),
        AtermView::VReal(es) => call("vreal"@, colored_list(es, 0)),
        AtermView::VInt(es) => call("vint"@, colored_list(es, 0)),
        AtermView::Mi => blue("mi"@) + op("("@) + op(")"@),
    }
}

pub open spec fn colored_aterms(s: Seq<AtermView>) -> Seq<Text> {
    Seq::new(s.len(), |i: int| colored_aterm(s[i]))
}

pub open spec fn colored_dpars(s: Seq<DparView>) -> Seq<Text> {
    Seq::new(s.len(), |i: int| s[i].name + " "@ + op("~"@) + " "@ + colored_expr(s[i].rhs))
}

pub open spec fn colored_autocor(a: AutocorView) -> Text {
    call(a.name, colored_named(a.args))
}

pub open spec fn colored_autocors(s: Seq<AutocorView>) -> Seq<Text> {
    Seq::new(s.len(), |i: int| colored_autocor(s[i]))
}

/// The colored header behind a model: `, family=..` and `, link=..`, the
/// commas in yellow; nothing without a family.
pub open spec fn colored_header(family: Option<FamilyView>, link: Option<LinkView>) -> Text {
    match family {
        Some(f) => op(", "@) + "family="@ + colored_family(f) + (match link {
            Some(l) => op(", "@) + "link="@ + colored_link(l),
            None => Seq::empty(),
        }),
        None => Seq::empty(),
    }
}

/// The colored main formula. The colored response is never empty, so the
/// response is always written.
pub open spec fn colored_formula(f: FormulaView) -> Text {
    let lhs = colored_response(f.lhs);
    let rhs = colored_expr(f.rhs);
    if lhs.len() == 0 {
        rhs
    } else if f.aterms.len() == 0 {
        lhs + " "@ + op("~"@) + " "@ + rhs
    } else {
        lhs + " "@ + op("|"@) + " "@ + join(colored_aterms(f.aterms), op(" | "@)) + " "@ + op(
            "~"@,
        ) + " "@ + rhs
    }
}

/// The colored text of a model: formula, distributional parameters and
/// autocorrelation terms, joined by a yellow ` + `, and the header behind
/// them.
pub open spec fn colored_model(m: ModelSpecView) -> Text {
    join(
        seq![colored_formula(m.formula)] + colored_dpars(m.dpars) + colored_autocors(m.autocor),
        op(" + "@),
    ) + colored_header(m.family, m.link)
}

// ---------------------------------------------------------------------------
// Rendering
// ---------------------------------------------------------------------------

fn append_all(out: &mut String, s: String)
    ensures
        final(out)@ == old(out)@ + s@,
{
    out.append(s.as_str());
}

impl SimpleColoredPretty {
    fn call_text(&self, name: &str, args: &Vec<String>) -> (r: String)
        requires
            self.enabled(),
        ensures
            r@ == call(name@, texts_view(args@)),
    {
        let sep = self.operator(", ");
        let inside = join_strings(args, sep.as_str());
        let mut out = self.function(name);
        append_all(&mut out, self.operator("("));
        out.append(inside.as_str());
        append_all(&mut out, self.operator(")"));
        out
    }

    fn color_hold(&self, text: String, own: u8, least: u8) -> (r: String)
        requires
            self.enabled(),
        ensures
            r@ == colored_held(text@, own as nat, least as nat),
    {
        if own < least {
            let mut out = self.operator("(");
            out.append(text.as_str());
            append_all(&mut out, self.operator(")"));
            out
        } else {
            text
        }
    }

    fn color_list(&self, ts: &Vec<Expr>, least: u8) -> (r: Vec<String>)
        requires
            self.enabled(),
        ensures
            texts_view(r@) == colored_list(exprs_view(ts@), least as nat),
        decreases ts, 0nat,
    {
        let mut parts: Vec<String> = Vec::new();
        let mut i: usize = 0;
        assert(texts_view(parts@) =~= colored_list(exprs_view(ts@), least as nat).take(0));
        while i < ts.len()
            invariant
                self.enabled(),
                i <= ts.len(),
                texts_view(parts@) == colored_list(exprs_view(ts@), least as nat).take(i as int),
            decreases ts.len() - i,
        {
            proof {
                assert(decreases_to!(*ts => ts[i as int]));
            }
            let body = self.color_expr(&ts[i]);
            let part = self.color_hold(body, level_of(&ts[i]), least);
            push_text(&mut parts, part);
            proof {
                let all = colored_list(exprs_view(ts@), least as nat);
                assert(all.take(i + 1) =~= all.take(i as int).push(all[i as int]));
            }
            i += 1;
        }
        assert(colored_list(exprs_view(ts@), least as nat).take(ts.len() as int)
            =~= colored_list(exprs_view(ts@), least as nat));
        parts
    }

    fn color_named(&self, args: &Vec<(String, Expr)>) -> (r: Vec<String>)
        requires
            self.enabled(),
        ensures
            texts_view(r@) == colored_named(named_view(args@)),
        decreases args, 0nat,
    {
        let mut parts: Vec<String> = Vec::new();
        let mut i: usize = 0;
        assert(texts_view(parts@) =~= colored_named(named_view(args@)).take(0));
        while i < args.len()
            invariant
                self.enabled(),
                i <= args.len(),
                texts_view(parts@) == colored_named(named_view(args@)).take(i as int),
            decreases args.len() - i,
        {
            proof {
                assert(decreases_to!(*args => args[i as int]));
                assert(decreases_to!(args[i as int] => args[i as int].1));
            }
            let value = self.color_expr(&args[i].1);
            let part = wrapped(args[i].0.as_str(), "=", value.as_str());
            push_text(&mut parts, part);
            proof {
                let all = colored_named(named_view(args@));
                assert(all.take(i + 1) =~= all.take(i as int).push(all[i as int]));
            }
            i += 1;
        }
        assert(colored_named(named_view(args@)).take(args.len() as int) =~= colored_named(
            named_view(args@),
        ));
        parts
    }

    fn color_joined(&self, ts: &Vec<Expr>, least: u8, sep: &str) -> (r: String)
        requires
            self.enabled(),
        ensures
            r@ == join(colored_list(exprs_view(ts@), least as nat), op(sep@)),
        decreases ts, 1nat,
    {
        let parts = self.color_list(ts, least);
        let between = self.operator(sep);
        join_strings(&parts, between.as_str())
    }

    fn color_expr(&self, e: &Expr) -> (r: String)
        requires
            self.enabled(),
        ensures
            r@ == colored_expr(e@),
        decreases e, 2nat,
    {
        match e {
            Expr::Num(n) => self.number(n.as_str()),
            Expr::Bool(b) => if *b {
                self.number("true")
            } else {
                self.number("false")
            },
            Expr::Str(s) => {
                let text = crate::pretty::quote(s.as_str());
                self.operator(text.as_str())
            },
            Expr::Var(v) => self.predictor(v.as_str()),
            Expr::Sum(ts) => self.color_joined(ts, 1, " + "),
            Expr::Prod(ts) => self.color_joined(ts, 2, " * "),
            Expr::Interaction(ts) => self.color_joined(ts, 4, ":"),
            Expr::Nest { outer, inner, kind } => {
                let left = self.color_expr(outer);
                let mut out = self.color_hold(left, level_of(outer), 2);
                out.append(" ");
                match kind {
                    NestKind::Slash => append_all(&mut out, self.operator("/")),
                    NestKind::In => append_all(&mut out, self.operator("%in%")),
                }
                out.append(" ");
                let right = self.color_expr(inner);
                append_all(&mut out, self.color_hold(right, level_of(inner), 3));
                out
            },
            Expr::Pow { base, exp } => {
                let inner = self.color_expr(base);
                let mut out = self.color_hold(inner, level_of(base), 5);
                append_all(&mut out, self.operator("^"));
                let power = self.color_expr(exp);
                let bare = match **exp {
                    Expr::Num(_) => true,
                    Expr::Intercept(_) => true,
                    _ => false,
                };
                if bare {
                    out.append(power.as_str());
                } else {
                    append_all(&mut out, self.operator("("));
                    out.append(power.as_str());
                    append_all(&mut out, self.operator(")"));
                }
                out
            },
            Expr::Group { inner, spec, kind, id } => {
                let mut out = self.group("(");
                append_all(&mut out, self.color_expr(inner));
                match id {
                    Some(id) => {
                        append_all(&mut out, self.operator("|"));
                        out.append(id.as_str());
                        append_all(&mut out, self.operator("|"));
                    },
                    None => match kind {
                        GroupKind::Correlated => append_all(&mut out, self.operator("|")),
                        GroupKind::Uncorrelated => append_all(&mut out, self.operator("||")),
                    },
                }
                append_all(&mut out, self.color_group_spec(spec));
                append_all(&mut out, self.group(")"));
                out
            },
            Expr::Smooth { kind, vars, args } => {
                let word = match kind {
                    SmoothKind::S => "s",
                    SmoothKind::T2 => "t2",
                    SmoothKind::TE => "te",
                    SmoothKind::TI => "ti",
                };
                let sep = self.operator(", ");
                let mut parts: Vec<String> = Vec::new();
                push_text(&mut parts, join_strings(vars, sep.as_str()));
                let named = self.color_named(args);
                let ghost head = seq![join(texts_view(vars@), op(", "@))];
                assert(texts_view(parts@) =~= head + texts_view(named@).take(0));
                let mut i: usize = 0;
                while i < named.len()
                    invariant
                        i <= named.len(),
                        texts_view(parts@) == head + texts_view(named@).take(i as int),
                    decreases named.len() - i,
                {
                    push_text(&mut parts, named[i].clone());
                    assert(texts_view(named@).take(i + 1) =~= texts_view(named@).take(
                        i as int,
                    ).push(named@[i as int]@));
                    assert(texts_view(parts@) =~= head + texts_view(named@).take(i + 1));
                    i += 1;
                }
                assert(texts_view(named@).take(named.len() as int) =~= texts_view(named@));
                self.call_text(word, &parts)
            },
            Expr::Func { name, args } => {
                let parts = self.color_list(args, 0);
                self.call_text(name.as_str(), &parts)
            },
            Expr::Identity(inner) => {
                let mut out = self.function("I");
                append_all(&mut out, self.operator("("));
                append_all(&mut out, self.color_expr(inner));
                append_all(&mut out, self.operator(")"));
                out
            },
            Expr::Intercept(b) => if *b {
                self.number("1")
            } else {
                self.number("0")
            },
            Expr::Dot => self.operator("."),
        }
    }

    fn color_chain(&self, chain: &Vec<(String, Option<GroupOp>)>) -> (r: String)
        requires
            self.enabled(),
        ensures
            r@ == colored_chain(chain_view(chain@)),
    {
        let mut out = String::new();
        let mut i: usize = 0;
        while i < chain.len()
            invariant
                self.enabled(),
                i <= chain.len(),
                out@ == colored_chain(chain_view(chain@).take(i as int)),
            decreases chain.len() - i,
        {
            proof {
                let all = chain_view(chain@);
                assert(all.take(i + 1).drop_last() =~= all.take(i as int));
                assert(all.take(i + 1).last() == all[i as int]);
            }
            match chain[i].1 {
                Some(GroupOp::Cross) => append_all(&mut out, self.operator(":")),
                Some(GroupOp::Nest) => append_all(&mut out, self.operator("/")),
                Some(GroupOp::Split) => append_all(&mut out, self.operator("+")),
                None => {},
            }
            out.append(chain[i].0.as_str());
            i += 1;
        }
        assert(chain_view(chain@).take(chain.len() as int) =~= chain_view(chain@));
        out
    }

    fn color_group_spec(&self, spec: &GroupSpec) -> (r: String)
        requires
            self.enabled(),
        ensures
            r@ == colored_group_spec(spec@),
        decreases spec, 1nat,
    {
        match spec {
            GroupSpec::Expr(chain) => self.color_chain(&chain.0),
            GroupSpec::Func { name, args } => {
                let parts = self.color_list(args, 0);
                self.call_text(name.as_str(), &parts)
            },
        }
    }

    fn color_family(&self, family: &Family) -> (r: String)
        requires
            self.enabled(),
        ensures
            r@ == colored_family(family@),
        decreases family,
    {
        match family {
            Family::Builtin(name, args) => {
                let parts = self.color_list(args, 0);
                self.call_text(name.as_str(), &parts)
            },
            Family::Mixture(fs) => {
                let mut parts: Vec<String> = Vec::new();
                let mut i: usize = 0;
                assert(texts_view(parts@) =~= colored_families(families_view(fs@)).take(0));
                while i < fs.len()
                    invariant
                        self.enabled(),
                        *family == Family::Mixture(*fs),
                        i <= fs.len(),
                        texts_view(parts@) == colored_families(families_view(fs@)).take(i as int),
                    decreases fs.len() - i,
                {
                    proof {
                        assert(decreases_to!(*family => family->Mixture_0));
                        assert(decreases_to!(*fs => fs[i as int]));
                    }
                    push_text(&mut parts, self.color_family(&fs[i]));
                    proof {
                        let all = colored_families(families_view(fs@));
                        assert(all.take(i + 1) =~= all.take(i as int).push(all[i as int]));
                    }
                    i += 1;
                }
                assert(colored_families(families_view(fs@)).take(fs.len() as int)
                    =~= colored_families(families_view(fs@)));
                self.call_text("mixture", &parts)
            },
            Family::Custom { name, dpars } => {
                let mut parts: Vec<String> = Vec::new();
                push_text(&mut parts, crate::pretty::quote(name.as_str()));
                let ghost head = seq![crate::pretty::quoted(name@)];
                let ghost rest = crate::pretty::quoted_texts(texts_view(dpars@));
                assert(texts_view(parts@) =~= head + rest.take(0));
                let mut i: usize = 0;
                while i < dpars.len()
                    invariant
                        i <= dpars.len(),
                        rest == crate::pretty::quoted_texts(texts_view(dpars@)),
                        texts_view(parts@) == head + rest.take(i as int),
                    decreases dpars.len() - i,
                {
                    push_text(&mut parts, crate::pretty::quote(dpars[i].as_str()));
                    proof {
                        assert(rest.take(i + 1) =~= rest.take(i as int).push(rest[i as int]));
                        assert(texts_view(parts@) =~= head + rest.take(i + 1));
                    }
                    i += 1;
                }
                assert(rest.take(dpars.len() as int) =~= rest);
                self.call_text("custom_family", &parts)
            },
        }
    }

    fn color_link(&self, link: &Link) -> (r: String)
        requires
            self.enabled(),
        ensures
            r@ == colored_link(link@),
    {
        match link {
            Link::Named(name, args) => {
                assert(exprs_view(args@).len() == args@.len());
                if args.len() == 0 {
                    self.function(name.as_str())
                } else {
                    let parts = self.color_list(args, 0);
                    self.call_text(name.as_str(), &parts)
                }
            },
        }
    }

    fn color_response(&self, response: &Response) -> (r: String)
        requires
            self.enabled(),
        ensures
            r@ == colored_response(response@),
    {
        match response {
            Response::Var(v) => self.response(v.as_str()),
            Response::Multi(vs) => {
                let mut parts: Vec<String> = Vec::new();
                let mut i: usize = 0;
                assert(texts_view(parts@) =~= reds(texts_view(vs@)).take(0));
                while i < vs.len()
                    invariant
                        self.enabled(),
                        i <= vs.len(),
                        texts_view(parts@) == reds(texts_view(vs@)).take(i as int),
                    decreases vs.len() - i,
                {
                    push_text(&mut parts, self.response(vs[i].as_str()));
                    proof {
                        let all = reds(texts_view(vs@));
                        assert(all.take(i + 1) =~= all.take(i as int).push(all[i as int]));
                    }
                    i += 1;
                }
                assert(reds(texts_view(vs@)).take(vs.len() as int) =~= reds(texts_view(vs@)));
                self.call_text("cbind", &parts)
            },
            Response::Surv { time, event, time2 } => {
                let mut out = self.function("Surv");
                append_all(&mut out, self.operator("("));
                append_all(&mut out, self.color_expr(time));
                append_all(&mut out, self.operator(", "));
                append_all(&mut out, self.color_expr(event));
                match time2 {
                    Some(t2) => {
                        append_all(&mut out, self.operator(", "));
                        append_all(&mut out, self.color_expr(t2));
                    },
                    None => {},
                }
                append_all(&mut out, self.operator(")"));
                out
            },
            Response::Func { name, args } => {
                let parts = self.color_list(args, 0);
                self.call_text(name.as_str(), &parts)
            },
            Response::BinomialTrials { successes, trials } => {
                let mut out = self.color_expr(successes);
                out.append(" ");
                append_all(&mut out, self.operator("|"));
                out.append(" ");
                append_all(&mut out, self.function("trials"));
                append_all(&mut out, self.operator("("));
                append_all(&mut out, self.color_expr(trials));
                append_all(&mut out, self.operator(")"));
                out
            },
        }
    }

    fn color_unary(&self, name: &str, arg: &Expr) -> (r: String)
        requires
            self.enabled(),
        ensures
            r@ == colored_unary(name@, arg@),
    {
        let mut out = self.function(name);
        append_all(&mut out, self.operator("("));
        append_all(&mut out, self.color_expr(arg));
        append_all(&mut out, self.operator(")"));
        out
    }

    fn color_aterm(&self, aterm: &Aterm) -> (r: String)
        requires
            self.enabled(),
        ensures
            r@ == colored_aterm(aterm@),
    {
        match aterm {
            Aterm::Se(e) => self.color_unary("se", e),
            Aterm::Weights(e) => self.color_unary("weights", e),
            Aterm::Trials(e) => self.color_unary("trials", e),
            Aterm::Cens(e) => self.color_unary("cens", e),
            Aterm::Trunc { lb, ub } => {
                let mut parts: Vec<String> = Vec::new();
                assert(texts_view(parts@) =~= Seq::<Text>::empty());
                match lb {
                    Some(e) => {
                        let body = self.color_expr(e);
                        push_text(&mut parts, prefixed("lb=", body.as_str()));
                    },
                    None => {},
                }
                let ghost first = texts_view(parts@);
                assert(first =~= match option_expr_view(*lb) {
                    Some(e) => seq!["lb="@ + colored_expr(e)],
                    None => Seq::empty(),
                });
                match ub {
                    Some(e) => {
                        let body = self.color_expr(e);
                        push_text(&mut parts, prefixed("ub=", body.as_str()));
                    },
                    None => {},
                }
                assert(texts_view(parts@) =~= first + match option_expr_view(*ub) {
                    Some(e) => seq!["ub="@ + colored_expr(e)],
                    None => Seq::empty(),
                });
                self.call_text("trunc", &parts)
            },
            Aterm::Subset(e) => self.color_unary("subset", e),
            Aterm::Rate(e) => self.color_unary("rate", e),
            Aterm::Thres { gr } => {
                let mut out = self.function("thres");
                match gr {
                    Some(e) => {
                        append_all(&mut out, self.operator("(gr="));
                        append_all(&mut out, self.color_expr(e));
                    },
                    None => {
                        append_all(&mut out, self.operator("("));
                    },
                }
                append_all(&mut out, self.operator(")"));
                out
            },
            Aterm::Dec(e) => self.color_unary("dec", e),
            Aterm::Cat(e) => self.color_unary("cat", e),
            Aterm::Index(e) => self.color_unary("index", e),
            Aterm::VReal(es) => {
                let parts = self.color_list(es, 0);
                self.call_text("vreal", &parts)
            },
            Aterm::VInt(es) => {
                let parts = self.color_list(es, 0);
                self.call_text("vint", &parts)
            },
            Aterm::Mi => {
                let mut out = self.function("mi");
                append_all(&mut out, self.operator("("));
                append_all(&mut out, self.operator(")"));
                out
            },
        }
    }

    fn color_formula(&self, formula: &Formula) -> (r: String)
        requires
            self.enabled(),
        ensures
            r@ == colored_formula(formula@),
    {
        let lhs = self.color_response(&formula.lhs);
        let rhs = self.color_expr(&formula.rhs);
        if lhs.as_str().unicode_len() == 0 {
            return rhs;
        }
        let mut out = lhs;
        assert(aterms_view(formula.aterms@).len() == formula.aterms@.len());
        if formula.aterms.len() > 0 {
            let mut parts: Vec<String> = Vec::new();
            let mut i: usize = 0;
            assert(texts_view(parts@) =~= colored_aterms(aterms_view(formula.aterms@)).take(0));
            while i < formula.aterms.len()
                invariant
                    self.enabled(),
                    i <= formula.aterms.len(),
                    texts_view(parts@) == colored_aterms(aterms_view(formula.aterms@)).take(
                        i as int,
                    ),
                decreases formula.aterms.len() - i,
            {
                push_text(&mut parts, self.color_aterm(&formula.aterms[i]));
                proof {
                    let all = colored_aterms(aterms_view(formula.aterms@));
                    assert(all.take(i + 1) =~= all.take(i as int).push(all[i as int]));
                }
                i += 1;
            }
            assert(colored_aterms(aterms_view(formula.aterms@)).take(
                formula.aterms.len() as int,
            ) =~= colored_aterms(aterms_view(formula.aterms@)));
            out.append(" ");
            append_all(&mut out, self.operator("|"));
            out.append(" ");
            let sep = self.operator(" | ");
            let mods = join_strings(&parts, sep.as_str());
            out.append(mods.as_str());
        }
        out.append(" ");
        append_all(&mut out, self.operator("~"));
        out.append(" ");
        out.append(rhs.as_str());
        out
    }

    fn color_header(&self, spec: &ModelSpec) -> (r: String)
        requires
            self.enabled(),
        ensures
            r@ == colored_header(spec@.family, spec@.link),
    {
        match &spec.family {
            Some(family) => {
                let mut out = self.operator(", ");
                out.append("family=");
                let f = self.color_family(family);
                out.append(f.as_str());
                match &spec.link {
                    Some(link) => {
                        let comma = self.operator(", ");
                        out.append(comma.as_str());
                        out.append("link=");
                        let l = self.color_link(link);
                        out.append(l.as_str());
                        assert(out@ =~= op(", "@) + "family="@ + f@ + (op(", "@) + "link="@
                            + l@));
                    },
                    None => {
                        assert(out@ =~= op(", "@) + "family="@ + f@ + Seq::<char>::empty());
                    },
                }
                out
            },
            None => String::new(),
        }
    }

    /// Renders a model as formula text, colored where this printer colors.
    #[verifier::rlimit(40)]
    pub fn pretty_model_spec(&self, spec: &ModelSpec) -> (r: String)
        ensures
            r@ == if self.enabled() {
                colored_model(spec@)
            } else {
                model_text(spec@)
            },
    {
        if !self.is_enabled() {
            return pretty(spec);
        }
        let mut parts: Vec<String> = Vec::new();
        assert(texts_view(parts@) =~= Seq::<Text>::empty());
        push_text(&mut parts, self.color_formula(&spec.formula));
        let ghost head = seq![colored_formula(spec@.formula)];
        assert(texts_view(parts@) =~= head);
        let mut i: usize = 0;
        assert(texts_view(parts@) =~= head + colored_dpars(dpars_view(spec.dpars@)).take(0));
        while i < spec.dpars.len()
            invariant
                self.enabled(),
                i <= spec.dpars.len(),
                texts_view(parts@) == head + colored_dpars(dpars_view(spec.dpars@)).take(i as int),
            decreases spec.dpars.len() - i,
        {
            let mut part = spec.dpars[i].name.clone();
            part.append(" ");
            append_all(&mut part, self.operator("~"));
            part.append(" ");
            append_all(&mut part, self.color_expr(&spec.dpars[i].rhs));
            push_text(&mut parts, part);
            proof {
                let all = colored_dpars(dpars_view(spec.dpars@));
                assert(all.take(i + 1) =~= all.take(i as int).push(all[i as int]));
                assert(texts_view(parts@) =~= head + all.take(i + 1));
            }
            i += 1;
        }
        assert(colored_dpars(dpars_view(spec.dpars@)).take(spec.dpars.len() as int)
            =~= colored_dpars(dpars_view(spec.dpars@)));
        let ghost mid = head + colored_dpars(dpars_view(spec.dpars@));
        let mut j: usize = 0;
        assert(texts_view(parts@) =~= mid + colored_autocors(autocors_view(spec.autocor@)).take(0));
        while j < spec.autocor.len()
            invariant
                self.enabled(),
                j <= spec.autocor.len(),
                texts_view(parts@) == mid + colored_autocors(autocors_view(spec.autocor@)).take(
                    j as int,
                ),
            decreases spec.autocor.len() - j,
        {
            let named = self.color_named(&spec.autocor[j].args);
            let part = self.call_text(spec.autocor[j].name.as_str(), &named);
            push_text(&mut parts, part);
            proof {
                let all = colored_autocors(autocors_view(spec.autocor@));
                assert(all.take(j + 1) =~= all.take(j as int).push(all[j as int]));
                assert(texts_view(parts@) =~= mid + all.take(j + 1));
            }
            j += 1;
        }
        assert(colored_autocors(autocors_view(spec.autocor@)).take(spec.autocor.len() as int)
            =~= colored_autocors(autocors_view(spec.autocor@)));
        let sep = self.operator(" + ");
        let mut out = join_strings(&parts, sep.as_str());
        let header = self.color_header(spec);
        out.append(header.as_str());
        out
    }

    /// Colors the text of a formula: as the model that it stands for where it
    /// is a formula, else token by token.
    pub fn formula(&self, formula: &str) -> (r: String)
        ensures
            r@ == if !self.enabled() {
                formula@
            } else {
                match model_at(formula@) {
                    Some(m) => colored_model(m),
                    None => simply_colored(formula@),
                }
            },
    {
        if !self.is_enabled() {
            return String::from_str(formula);
        }
        match parser().parse(formula) {
            Ok(spec) => self.pretty_model_spec(&spec),
            Err(_) => self.formula_simple_parse(formula),
        }
    }
}

} // verus!
