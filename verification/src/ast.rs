//! The syntax tree of a model formula, and the mathematical value (the view)
//! that each node stands for.

use vstd::prelude::*;

verus! {

/// How one expression is nested in another: `a/b` or `b %in% a`.
#[derive(Debug, Clone, Copy, PartialEq, Eq, Structural)]
pub enum NestKind {
    Slash,
    In,
}

/// Whether the effects of a group term are correlated (`|`) or not (`||`).
#[derive(Debug, Clone, Copy, PartialEq, Eq, Structural)]
pub enum GroupKind {
    Correlated,
    Uncorrelated,
}

/// The operator that joins two grouping variables: `:`, `/` or `+`.
#[derive(Debug, Clone, Copy, PartialEq, Eq, Structural)]
pub enum GroupOp {
    Cross,
    Nest,
    Split,
}

/// The kind of a smooth term: `s`, `t2`, `te` or `ti`.
#[derive(Debug, Clone, Copy, PartialEq, Eq, Structural)]
pub enum SmoothKind {
    S,
    T2,
    TE,
    TI,
}

/// A chain of grouping variables; every one but the first carries the
/// operator that joins it to the one before.
#[derive(Debug, PartialEq)]
pub struct GroupExpr(pub Vec<(String, Option<GroupOp>)>);

/// What a group term groups by.
#[derive(Debug, PartialEq)]
pub enum GroupSpec {
    Expr(GroupExpr),
    Func { name: String, args: Vec<Expr> },
}

/// An expression of the formula language.
///
/// A number literal is held as its decimal text in shortest form: no leading
/// zeros, no trailing zeros after the point, no point without a fraction.
/// Named arguments are held in the order in which they were written. What
/// is read from a text holds each name once, and hoisting and the canonical
/// form keep that: see `well_named` in the module `named`.
#[allow(inconsistent_fields)]
#[derive(Debug, PartialEq)]
pub enum Expr {
    Num(String),
    Bool(bool),
    Str(String),
    Var(String),
    Sum(Vec<Expr>),
    Prod(Vec<Expr>),
    Interaction(Vec<Expr>),
    Nest { outer: Box<Expr>, inner: Box<Expr>, kind: NestKind },
    Pow { base: Box<Expr>, exp: Box<Expr> },
    Group { inner: Box<Expr>, spec: GroupSpec, kind: GroupKind, id: Option<String> },
    Smooth { kind: SmoothKind, vars: Vec<String>, args: Vec<(String, Expr)> },
    Func { name: String, args: Vec<Expr> },
    Identity(Box<Expr>),
    Intercept(bool),
    Dot,
}

/// The left-hand side of a formula.
#[derive(Debug, PartialEq)]
pub enum Response {
    Var(String),
    Multi(Vec<String>),
    Surv { time: Expr, event: Expr, time2: Option<Expr> },
    Func { name: String, args: Vec<Expr> },
    BinomialTrials { successes: Expr, trials: Expr },
}

/// A modifier attached to the response.
#[derive(Debug, PartialEq)]
pub enum Aterm {
    Se(Expr),
    Weights(Expr),
    Trials(Expr),
    Cens(Expr),
    Trunc { lb: Option<Expr>, ub: Option<Expr> },
    Subset(Expr),
    Rate(Expr),
    Thres { gr: Option<Expr> },
    Dec(Expr),
    Cat(Expr),
    Index(Expr),
    VReal(Vec<Expr>),
    VInt(Vec<Expr>),
    Mi,
}

/// A distribution family.
#[derive(Debug, PartialEq)]
pub enum Family {
    Builtin(String, Vec<Expr>),
    Mixture(Vec<Family>),
    Custom { name: String, dpars: Vec<String> },
}

/// A link function.
#[derive(Debug, PartialEq)]
pub enum Link {
    Named(String, Vec<Expr>),
}

#[derive(Debug, PartialEq)]
pub struct Formula {
    pub lhs: Response,
    pub rhs: Expr,
    pub aterms: Vec<Aterm>,
}

/// The formula of one distributional parameter, such as `sigma ~ z`.
#[derive(Debug, PartialEq)]
pub struct Dpar {
    pub name: String,
    pub rhs: Expr,
}

/// An autocorrelation term, such as `ar(p=1)`.
#[derive(Debug, PartialEq)]
pub struct Autocor {
    pub name: String,
    pub args: Vec<(String, Expr)>,
}

/// A whole model: header, formula, distributional parameters and
/// autocorrelation terms.
#[derive(Debug, PartialEq)]
pub struct ModelSpec {
    pub family: Option<Family>,
    pub link: Option<Link>,
    pub formula: Formula,
    pub dpars: Vec<Dpar>,
    pub autocor: Vec<Autocor>,
}

/// Options of materialization.
#[derive(Debug, Clone, Copy)]
pub struct MaterializeOptions {
    /// Whether the fixed effects start with an intercept column.
    pub rhs_intercept: bool,
    /// The name of that column.
    pub intercept_name: &'static str,
    /// Whether column names are cleaned.
    pub clean_names: bool,
}

// ---------------------------------------------------------------------------
// Views
// ---------------------------------------------------------------------------

pub type Text = Seq<char>;

pub enum GroupSpecView {
    Expr(Seq<(Text, Option<GroupOp>)>),
    Func { name: Text, args: Seq<ExprView> },
}

#[allow(inconsistent_fields)]
pub enum ExprView {
    Num(Text),
    Bool(bool),
    Str(Text),
    Var(Text),
    Sum(Seq<ExprView>),
    Prod(Seq<ExprView>),
    Interaction(Seq<ExprView>),
    Nest { outer: Box<ExprView>, inner: Box<ExprView>, kind: NestKind },
    Pow { base: Box<ExprView>, exp: Box<ExprView> },
    Group { inner: Box<ExprView>, spec: GroupSpecView, kind: GroupKind, id: Option<Text> },
    Smooth { kind: SmoothKind, vars: Seq<Text>, args: Seq<(Text, ExprView)> },
    Func { name: Text, args: Seq<ExprView> },
    Identity(Box<ExprView>),
    Intercept(bool),
    Dot,
}

pub enum ResponseView {
    Var(Text),
    Multi(Seq<Text>),
    Surv { time: ExprView, event: ExprView, time2: Option<ExprView> },
    Func { name: Text, args: Seq<ExprView> },
    BinomialTrials { successes: ExprView, trials: ExprView },
}

pub enum AtermView {
    Se(ExprView),
    Weights(ExprView),
    Trials(ExprView),
    Cens(ExprView),
    Trunc { lb: Option<ExprView>, ub: Option<ExprView> },
    Subset(ExprView),
    Rate(ExprView),
    Thres { gr: Option<ExprView> },
    Dec(ExprView),
    Cat(ExprView),
    Index(ExprView),
    VReal(Seq<ExprView>),
    VInt(Seq<ExprView>),
    Mi,
}

pub enum FamilyView {
    Builtin(Text, Seq<ExprView>),
    Mixture(Seq<FamilyView>),
    Custom { name: Text, dpars: Seq<Text> },
}

pub enum LinkView {
    Named(Text, Seq<ExprView>),
}

pub struct FormulaView {
    pub lhs: ResponseView,
    pub rhs: ExprView,
    pub aterms: Seq<AtermView>,
}

pub struct DparView {
    pub name: Text,
    pub rhs: ExprView,
}

pub struct AutocorView {
    pub name: Text,
    pub args: Seq<(Text, ExprView)>,
}

pub struct ModelSpecView {
    pub family: Option<FamilyView>,
    pub link: Option<LinkView>,
    pub formula: FormulaView,
    pub dpars: Seq<DparView>,
    pub autocor: Seq<AutocorView>,
}

pub open spec fn texts_view(s: Seq<String>) -> Seq<Text> {
    Seq::new(s.len(), |i: int| s[i]@)
}

pub open spec fn option_text(o: Option<String>) -> Option<Text> {
    match o {
        Some(s) => Some(s@),
        None => None,
    }
}

pub open spec fn chain_view(s: Seq<(String, Option<GroupOp>)>) -> Seq<(Text, Option<GroupOp>)> {
    Seq::new(s.len(), |i: int| (s[i].0@, s[i].1))
}

pub open spec fn expr_view(e: Expr) -> ExprView
    decreases e,
{
    match e {
        Expr::Num(s) => ExprView::Num(s@),
        Expr::Bool(b) => ExprView::Bool(b),
        Expr::Str(s) => ExprView::Str(s@),
        Expr::Var(s) => ExprView::Var(s@),
        Expr::Sum(ts) => ExprView::Sum(exprs_view(ts@)),
        Expr::Prod(ts) => ExprView::Prod(exprs_view(ts@)),
        Expr::Interaction(ts) => ExprView::Interaction(exprs_view(ts@)),
        Expr::Nest { outer, inner, kind } => ExprView::Nest {
            outer: Box::new(expr_view(*outer)),
            inner: Box::new(expr_view(*inner)),
            kind,
        },
        Expr::Pow { base, exp } => ExprView::Pow {
            base: Box::new(expr_view(*base)),
            exp: Box::new(expr_view(*exp)),
        },
        Expr::Group { inner, spec, kind, id } => ExprView::Group {
            inner: Box::new(expr_view(*inner)),
            spec: group_spec_view(spec),
            kind,
            id: option_text(id),
        },
        Expr::Smooth { kind, vars, args } => ExprView::Smooth {
            kind,
            vars: texts_view(vars@),
            args: named_view(args@),
        },
        Expr::Func { name, args } => ExprView::Func { name: name@, args: exprs_view(args@) },
        Expr::Identity(inner) => ExprView::Identity(Box::new(expr_view(*inner))),
        Expr::Intercept(b) => ExprView::Intercept(b),
        Expr::Dot => ExprView::Dot,
    }
}

pub open spec fn exprs_view(ts: Seq<Expr>) -> Seq<ExprView>
    decreases ts,
{
    Seq::new(
        ts.len(),
        |i: int|
            if 0 <= i < ts.len() {
                expr_view(ts[i])
            } else {
                ExprView::Dot
            },
    )
}

pub open spec fn named_view(ts: Seq<(String, Expr)>) -> Seq<(Text, ExprView)>
    decreases ts,
{
    Seq::new(
        ts.len(),
        |i: int|
            if 0 <= i < ts.len() {
                (ts[i].0@, expr_view(ts[i].1))
            } else {
                (Seq::empty(), ExprView::Dot)
            },
    )
}

pub open spec fn group_spec_view(g: GroupSpec) -> GroupSpecView
    decreases g,
{
    match g {
        GroupSpec::Expr(chain) => GroupSpecView::Expr(chain_view(chain.0@)),
        GroupSpec::Func { name, args } => GroupSpecView::Func {
            name: name@,
            args: exprs_view(args@),
        },
    }
}

pub open spec fn option_expr_view(o: Option<Expr>) -> Option<ExprView> {
    match o {
        Some(e) => Some(expr_view(e)),
        None => None,
    }
}

pub open spec fn response_view(r: Response) -> ResponseView {
    match r {
        Response::Var(v) => ResponseView::Var(v@),
        Response::Multi(vs) => ResponseView::Multi(texts_view(vs@)),
        Response::Surv { time, event, time2 } => ResponseView::Surv {
            time: expr_view(time),
            event: expr_view(event),
            time2: option_expr_view(time2),
        },
        Response::Func { name, args } => ResponseView::Func {
            name: name@,
            args: exprs_view(args@),
        },
        Response::BinomialTrials { successes, trials } => ResponseView::BinomialTrials {
            successes: expr_view(successes),
            trials: expr_view(trials),
        },
    }
}

pub open spec fn aterm_view(a: Aterm) -> AtermView {
    match a {
        Aterm::Se(e) => AtermView::Se(expr_view(e)),
        Aterm::Weights(e) => AtermView::Weights(expr_view(e)),
        Aterm::Trials(e) => AtermView::Trials(expr_view(e)),
        Aterm::Cens(e) => AtermView::Cens(expr_view(e)),
        Aterm::Trunc { lb, ub } => AtermView::Trunc {
            lb: option_expr_view(lb),
            ub: option_expr_view(ub),
        },
        Aterm::Subset(e) => AtermView::Subset(expr_view(e)),
        Aterm::Rate(e) => AtermView::Rate(expr_view(e)),
        Aterm::Thres { gr } => AtermView::Thres { gr: option_expr_view(gr) },
        Aterm::Dec(e) => AtermView::Dec(expr_view(e)),
        Aterm::Cat(e) => AtermView::Cat(expr_view(e)),
        Aterm::Index(e) => AtermView::Index(expr_view(e)),
        Aterm::VReal(es) => AtermView::VReal(exprs_view(es@)),
        Aterm::VInt(es) => AtermView::VInt(exprs_view(es@)),
        Aterm::Mi => AtermView::Mi,
    }
}

pub open spec fn aterms_view(s: Seq<Aterm>) -> Seq<AtermView> {
    Seq::new(s.len(), |i: int| aterm_view(s[i]))
}

pub open spec fn family_view(f: Family) -> FamilyView
    decreases f,
{
    match f {
        Family::Builtin(name, args) => FamilyView::Builtin(name@, exprs_view(args@)),
        Family::Mixture(fs) => FamilyView::Mixture(families_view(fs@)),
        Family::Custom { name, dpars } => FamilyView::Custom {
            name: name@,
            dpars: texts_view(dpars@),
        },
    }
}

pub open spec fn families_view(fs: Seq<Family>) -> Seq<FamilyView>
    decreases fs,
{
    Seq::new(
        fs.len(),
        |i: int|
            if 0 <= i < fs.len() {
                family_view(fs[i])
            } else {
                FamilyView::Mixture(Seq::empty())
            },
    )
}

pub open spec fn link_view(l: Link) -> LinkView {
    match l {
        Link::Named(name, args) => LinkView::Named(name@, exprs_view(args@)),
    }
}

pub open spec fn dpars_view(s: Seq<Dpar>) -> Seq<DparView> {
    Seq::new(s.len(), |i: int| s[i]@)
}

pub open spec fn autocors_view(s: Seq<Autocor>) -> Seq<AutocorView> {
    Seq::new(s.len(), |i: int| s[i]@)
}

impl View for GroupExpr {
    type V = Seq<(Text, Option<GroupOp>)>;

    open spec fn view(&self) -> Seq<(Text, Option<GroupOp>)> {
        chain_view(self.0@)
    }
}

impl View for GroupSpec {
    type V = GroupSpecView;

    open spec fn view(&self) -> GroupSpecView {
        group_spec_view(*self)
    }
}

impl View for Expr {
    type V = ExprView;

    open spec fn view(&self) -> ExprView {
        expr_view(*self)
    }
}

impl View for Response {
    type V = ResponseView;

    open spec fn view(&self) -> ResponseView {
        response_view(*self)
    }
}

impl View for Aterm {
    type V = AtermView;

    open spec fn view(&self) -> AtermView {
        aterm_view(*self)
    }
}

impl View for Family {
    type V = FamilyView;

    open spec fn view(&self) -> FamilyView {
        family_view(*self)
    }
}

impl View for Link {
    type V = LinkView;

    open spec fn view(&self) -> LinkView {
        link_view(*self)
    }
}

impl View for Formula {
    type V = FormulaView;

    open spec fn view(&self) -> FormulaView {
        FormulaView {
            lhs: response_view(self.lhs),
            rhs: expr_view(self.rhs),
            aterms: aterms_view(self.aterms@),
        }
    }
}

impl View for Dpar {
    type V = DparView;

    open spec fn view(&self) -> DparView {
        DparView { name: self.name@, rhs: expr_view(self.rhs) }
    }
}

impl View for Autocor {
    type V = AutocorView;

    open spec fn view(&self) -> AutocorView {
        AutocorView { name: self.name@, args: named_view(self.args@) }
    }
}

impl View for ModelSpec {
    type V = ModelSpecView;

    open spec fn view(&self) -> ModelSpecView {
        ModelSpecView {
            family: match self.family {
                Some(f) => Some(family_view(f)),
                None => None,
            },
            link: match self.link {
                Some(l) => Some(link_view(l)),
                None => None,
            },
            formula: self.formula@,
            dpars: dpars_view(self.dpars@),
            autocor: autocors_view(self.autocor@),
        }
    }
}

// ---------------------------------------------------------------------------
// Copies
// ---------------------------------------------------------------------------

/// Appends an expression to a list.
pub fn push_expr(v: &mut Vec<Expr>, e: Expr)
    ensures
        final(v)@ == old(v)@.push(e),
        exprs_view(final(v)@) == exprs_view(old(v)@).push(e@),
{
    v.push(e);
    assert(exprs_view(v@) =~= exprs_view(old(v)@).push(e@));
}

/// Appends a named argument to a list.
pub fn push_named(v: &mut Vec<(String, Expr)>, name: String, e: Expr)
    ensures
        final(v)@ == old(v)@.push((name, e)),
        named_view(final(v)@) == named_view(old(v)@).push((name@, e@)),
{
    v.push((name, e));
    assert(named_view(v@) =~= named_view(old(v)@).push((name@, e@)));
}

/// Appends a text to a list.
pub fn push_text(v: &mut Vec<String>, s: String)
    ensures
        final(v)@ == old(v)@.push(s),
        texts_view(final(v)@) == texts_view(old(v)@).push(s@),
{
    v.push(s);
    assert(texts_view(v@) =~= texts_view(old(v)@).push(s@));
}

/// Whether a string is the given text.
pub fn is_text(s: &String, text: &str) -> (r: bool)
    ensures
        r == (s@ == text@),
{
    let other = String::from_str(text);
    *s == other
}

pub fn copy_texts(v: &Vec<String>) -> (r: Vec<String>)
    ensures
        texts_view(r@) == texts_view(v@),
{
    let mut out: Vec<String> = Vec::new();
    let mut i: usize = 0;
    while i < v.len()
        invariant
            i <= v.len(),
            out.len() == i,
            forall|j: int| 0 <= j < i ==> out@[j]@ == v@[j]@,
        decreases v.len() - i,
    {
        out.push(v[i].clone());
        i += 1;
    }
    assert(texts_view(out@) =~= texts_view(v@));
    out
}

pub fn copy_option_text(o: &Option<String>) -> (r: Option<String>)
    ensures
        option_text(r) == option_text(*o),
{
    match o {
        Some(s) => Some(s.clone()),
        None => None,
    }
}

pub fn copy_chain(v: &Vec<(String, Option<GroupOp>)>) -> (r: Vec<(String, Option<GroupOp>)>)
    ensures
        chain_view(r@) == chain_view(v@),
{
    let mut out: Vec<(String, Option<GroupOp>)> = Vec::new();
    let mut i: usize = 0;
    while i < v.len()
        invariant
            i <= v.len(),
            out.len() == i,
            forall|j: int| 0 <= j < i ==> out@[j].0@ == v@[j].0@ && out@[j].1 == v@[j].1,
        decreases v.len() - i,
    {
        let op: Option<GroupOp> = v[i].1;
        out.push((v[i].0.clone(), op));
        i += 1;
    }
    assert(chain_view(out@) =~= chain_view(v@));
    out
}

pub fn copy_expr(e: &Expr) -> (r: Expr)
    ensures
        r@ == e@,
    decreases e,
{
    match e {
        Expr::Num(s) => Expr::Num(s.clone()),
        Expr::Bool(b) => Expr::Bool(*b),
        Expr::Str(s) => Expr::Str(s.clone()),
        Expr::Var(s) => Expr::Var(s.clone()),
        Expr::Sum(ts) => Expr::Sum(copy_exprs(ts)),
        Expr::Prod(ts) => Expr::Prod(copy_exprs(ts)),
        Expr::Interaction(ts) => Expr::Interaction(copy_exprs(ts)),
        Expr::Nest { outer, inner, kind } => Expr::Nest {
            outer: Box::new(copy_expr(outer)),
            inner: Box::new(copy_expr(inner)),
            kind: *kind,
        },
        Expr::Pow { base, exp } => Expr::Pow {
            base: Box::new(copy_expr(base)),
            exp: Box::new(copy_expr(exp)),
        },
        Expr::Group { inner, spec, kind, id } => Expr::Group {
            inner: Box::new(copy_expr(inner)),
            spec: copy_group_spec(spec),
            kind: *kind,
            id: copy_option_text(id),
        },
        Expr::Smooth { kind, vars, args } => Expr::Smooth {
            kind: *kind,
            vars: copy_texts(vars),
            args: copy_named(args),
        },
        Expr::Func { name, args } => Expr::Func { name: name.clone(), args: copy_exprs(args) },
        Expr::Identity(inner) => Expr::Identity(Box::new(copy_expr(inner))),
        Expr::Intercept(b) => Expr::Intercept(*b),
        Expr::Dot => Expr::Dot,
    }
}

pub fn copy_exprs(v: &Vec<Expr>) -> (r: Vec<Expr>)
    ensures
        exprs_view(r@) == exprs_view(v@),
    decreases v,
{
    let mut out: Vec<Expr> = Vec::new();
    let mut i: usize = 0;
    while i < v.len()
        invariant
            i <= v.len(),
            out.len() == i,
            forall|j: int| 0 <= j < i ==> out@[j]@ == v@[j]@,
        decreases v.len() - i,
    {
        proof {
            assert(decreases_to!(*v => v[i as int]));
        }
        out.push(copy_expr(&v[i]));
        i += 1;
    }
    assert(exprs_view(out@) =~= exprs_view(v@));
    out
}

pub fn copy_named(v: &Vec<(String, Expr)>) -> (r: Vec<(String, Expr)>)
    ensures
        named_view(r@) == named_view(v@),
    decreases v,
{
    let mut out: Vec<(String, Expr)> = Vec::new();
    let mut i: usize = 0;
    while i < v.len()
        invariant
            i <= v.len(),
            out.len() == i,
            forall|j: int| 0 <= j < i ==> out@[j].0@ == v@[j].0@ && out@[j].1@ == v@[j].1@,
        decreases v.len() - i,
    {
        proof {
            assert(decreases_to!(*v => v[i as int]));
            assert(decreases_to!(v[i as int] => v[i as int].1));
        }
        let value = copy_expr(&v[i].1);
        out.push((v[i].0.clone(), value));
        i += 1;
    }
    assert(named_view(out@) =~= named_view(v@));
    out
}

pub fn copy_group_spec(g: &GroupSpec) -> (r: GroupSpec)
    ensures
        r@ == g@,
    decreases g,
{
    match g {
        GroupSpec::Expr(chain) => GroupSpec::Expr(GroupExpr(copy_chain(&chain.0))),
        GroupSpec::Func { name, args } => GroupSpec::Func {
            name: name.clone(),
            args: copy_exprs(args),
        },
    }
}

pub fn copy_option_expr(o: &Option<Expr>) -> (r: Option<Expr>)
    ensures
        option_expr_view(r) == option_expr_view(*o),
{
    match o {
        Some(e) => Some(copy_expr(e)),
        None => None,
    }
}

pub fn copy_family(f: &Family) -> (r: Family)
    ensures
        r@ == f@,
    decreases f,
{
    match f {
        Family::Builtin(name, args) => Family::Builtin(name.clone(), copy_exprs(args)),
        Family::Mixture(fs) => {
            let mut out: Vec<Family> = Vec::new();
            let mut i: usize = 0;
            while i < fs.len()
                invariant
                    *f == Family::Mixture(*fs),
                    i <= fs.len(),
                    out.len() == i,
                    forall|j: int| 0 <= j < i ==> out@[j]@ == fs@[j]@,
                decreases fs.len() - i,
            {
                proof {
                    assert(decreases_to!(*f => f->Mixture_0));
                    assert(decreases_to!(*fs => fs[i as int]));
                }
                out.push(copy_family(&fs[i]));
                i += 1;
            }
            assert(families_view(out@) =~= families_view(fs@));
            Family::Mixture(out)
        },
        Family::Custom { name, dpars } => Family::Custom {
            name: name.clone(),
            dpars: copy_texts(dpars),
        },
    }
}

impl Clone for GroupExpr {
    fn clone(&self) -> (r: Self)
        ensures
            r@ == self@,
    {
        GroupExpr(copy_chain(&self.0))
    }
}

impl Clone for GroupSpec {
    fn clone(&self) -> (r: Self)
        ensures
            r@ == self@,
    {
        copy_group_spec(self)
    }
}

impl Clone for Expr {
    fn clone(&self) -> (r: Self)
        ensures
            r@ == self@,
    {
        copy_expr(self)
    }
}

impl Clone for Response {
    fn clone(&self) -> (r: Self)
        ensures
            r@ == self@,
    {
        match self {
            Response::Var(v) => Response::Var(v.clone()),
            Response::Multi(vs) => Response::Multi(copy_texts(vs)),
            Response::Surv { time, event, time2 } => Response::Surv {
                time: copy_expr(time),
                event: copy_expr(event),
                time2: copy_option_expr(time2),
            },
            Response::Func { name, args } => Response::Func {
                name: name.clone(),
                args: copy_exprs(args),
            },
            Response::BinomialTrials { successes, trials } => Response::BinomialTrials {
                successes: copy_expr(successes),
                trials: copy_expr(trials),
            },
        }
    }
}

impl Clone for Aterm {
    fn clone(&self) -> (r: Self)
        ensures
            r@ == self@,
    {
        match self {
            Aterm::Se(e) => Aterm::Se(copy_expr(e)),
            Aterm::Weights(e) => Aterm::Weights(copy_expr(e)),
            Aterm::Trials(e) => Aterm::Trials(copy_expr(e)),
            Aterm::Cens(e) => Aterm::Cens(copy_expr(e)),
            Aterm::Trunc { lb, ub } => Aterm::Trunc {
                lb: copy_option_expr(lb),
                ub: copy_option_expr(ub),
            },
            Aterm::Subset(e) => Aterm::Subset(copy_expr(e)),
            Aterm::Rate(e) => Aterm::Rate(copy_expr(e)),
            Aterm::Thres { gr } => Aterm::Thres { gr: copy_option_expr(gr) },
            Aterm::Dec(e) => Aterm::Dec(copy_expr(e)),
            Aterm::Cat(e) => Aterm::Cat(copy_expr(e)),
            Aterm::Index(e) => Aterm::Index(copy_expr(e)),
            Aterm::VReal(es) => Aterm::VReal(copy_exprs(es)),
            Aterm::VInt(es) => Aterm::VInt(copy_exprs(es)),
            Aterm::Mi => Aterm::Mi,
        }
    }
}

impl Clone for Family {
    fn clone(&self) -> (r: Self)
        ensures
            r@ == self@,
    {
        copy_family(self)
    }
}

impl Clone for Link {
    fn clone(&self) -> (r: Self)
        ensures
            r@ == self@,
    {
        match self {
            Link::Named(name, args) => Link::Named(name.clone(), copy_exprs(args)),
        }
    }
}

pub fn copy_aterms(v: &Vec<Aterm>) -> (r: Vec<Aterm>)
    ensures
        aterms_view(r@) == aterms_view(v@),
{
    let mut out: Vec<Aterm> = Vec::new();
    let mut i: usize = 0;
    while i < v.len()
        invariant
            i <= v.len(),
            out.len() == i,
            forall|j: int| 0 <= j < i ==> out@[j]@ == v@[j]@,
        decreases v.len() - i,
    {
        out.push(v[i].clone());
        i += 1;
    }
    assert(aterms_view(out@) =~= aterms_view(v@));
    out
}

impl Clone for Formula {
    fn clone(&self) -> (r: Self)
        ensures
            r@ == self@,
    {
        Formula {
            lhs: self.lhs.clone(),
            rhs: copy_expr(&self.rhs),
            aterms: copy_aterms(&self.aterms),
        }
    }
}

impl Clone for Dpar {
    fn clone(&self) -> (r: Self)
        ensures
            r@ == self@,
    {
        Dpar { name: self.name.clone(), rhs: copy_expr(&self.rhs) }
    }
}

impl Clone for Autocor {
    fn clone(&self) -> (r: Self)
        ensures
            r@ == self@,
    {
        Autocor { name: self.name.clone(), args: copy_named(&self.args) }
    }
}

pub fn copy_dpars(v: &Vec<Dpar>) -> (r: Vec<Dpar>)
    ensures
        dpars_view(r@) == dpars_view(v@),
{
    let mut out: Vec<Dpar> = Vec::new();
    let mut i: usize = 0;
    while i < v.len()
        invariant
            i <= v.len(),
            out.len() == i,
            forall|j: int| 0 <= j < i ==> out@[j]@ == v@[j]@,
        decreases v.len() - i,
    {
        out.push(v[i].clone());
        i += 1;
    }
    assert(dpars_view(out@) =~= dpars_view(v@));
    out
}

pub fn copy_autocors(v: &Vec<Autocor>) -> (r: Vec<Autocor>)
    ensures
        autocors_view(r@) == autocors_view(v@),
{
    let mut out: Vec<Autocor> = Vec::new();
    let mut i: usize = 0;
    while i < v.len()
        invariant
            i <= v.len(),
            out.len() == i,
            forall|j: int| 0 <= j < i ==> out@[j]@ == v@[j]@,
        decreases v.len() - i,
    {
        out.push(v[i].clone());
        i += 1;
    }
    assert(autocors_view(out@) =~= autocors_view(v@));
    out
}

impl Clone for ModelSpec {
    fn clone(&self) -> (r: Self)
        ensures
            r@ == self@,
    {
        ModelSpec {
            family: match &self.family {
                Some(f) => Some(copy_family(f)),
                None => None,
            },
            link: match &self.link {
                Some(l) => Some(l.clone()),
                None => None,
            },
            formula: self.formula.clone(),
            dpars: copy_dpars(&self.dpars),
            autocor: copy_autocors(&self.autocor),
        }
    }
}

impl Default for MaterializeOptions {
    fn default() -> (r: Self)
        ensures
            r.rhs_intercept,
            r.clean_names,
            r.intercept_name@ == "intercept"@,
    {
        MaterializeOptions { rhs_intercept: true, intercept_name: "intercept", clean_names: true }
    }
}

} // verus!
