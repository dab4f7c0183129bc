//! Laying a model out against a table: the design tables of the response, of
//! the fixed effects and of the random effects.

use crate::ast::{
    chain_view, exprs_view, is_text, texts_view, Expr, ExprView, Formula, GroupSpec,
    MaterializeOptions, ModelSpec, Response, SmoothKind, Text,
};
use crate::design::{
    append_columns, copy_values, design_columns_view, names_of, push_column, DesignColumn,
    DesignColumnView, DesignTable, DesignTableView, Values,
};
use crate::layout::{
    built, column, columns_each, columns_of, cross_all, crossed, crossed_with, fallback_name,
    formula_tables, head_columns, rhs_tables, factor_sets, final_names, first_repeat,
    group_columns, has_minus_one, intercept_columns, is_minus_one, is_one, materialized,
    occurrences, removes_intercept, renamed, response_columns, single_column, slope_columns,
    source_column, Cols,
};
use crate::names::make_clean_names;
use crate::pretty::join_strings;
use crate::series::{
    cols_agree, create_categorical_contrasts, glue3, materialize_expr,
    materialize_poly_to_columns, missing, plain, semantic,
};
use crate::table::{valid_table, ColumnKind, Table, TableView};
use crate::text::decimal_string;
use crate::Error;
use vstd::prelude::*;

verus! {

/// Whether computed fixed-effect and random-effect columns agree with what
/// the layout says.
pub open spec fn pair_agrees(
    r: Result<(Vec<DesignColumn>, Vec<DesignColumn>), Error>,
    m: Result<(Cols, Cols), Text>,
) -> bool {
    match r {
        Ok(v) => m == Ok::<(Cols, Cols), Text>(
            (design_columns_view(v.0@), design_columns_view(v.1@)),
        ),
        Err(e) => e matches Error::Semantic(msg) && m == Err::<(Cols, Cols), Text>(msg@),
    }
}

/// Whether a computed design table agrees with what the layout says.
pub open spec fn table_agrees(r: Result<DesignTable, Error>, m: Result<DesignTableView, Text>) -> bool {
    match r {
        Ok(v) => m == Ok::<DesignTableView, Text>(v@),
        Err(e) => e matches Error::Semantic(msg) && m == Err::<DesignTableView, Text>(msg@),
    }
}

fn no_columns() -> (r: Vec<DesignColumn>)
    ensures
        design_columns_view(r@) == Seq::<DesignColumnView>::empty(),
        r@.len() == 0,
{
    let out: Vec<DesignColumn> = Vec::new();
    assert(design_columns_view(out@) =~= Seq::<DesignColumnView>::empty());
    out
}

fn one_column(c: DesignColumn) -> (r: Vec<DesignColumn>)
    ensures
        design_columns_view(r@) == seq![c@],
{
    let mut out: Vec<DesignColumn> = Vec::new();
    push_column(&mut out, c);
    assert(design_columns_view(out@) =~= seq![c@]);
    out
}

fn is_one_literal(e: &Expr) -> (r: bool)
    ensures
        r == is_one(e@),
{
    match e {
        Expr::Num(n) => is_text(n, "1"),
        Expr::Intercept(b) => *b,
        _ => false,
    }
}

fn is_minus_one_term(e: &Expr) -> (r: bool)
    ensures
        r == is_minus_one(e@),
{
    match e {
        Expr::Func { name, args } => {
            assert(exprs_view(args@).len() == args@.len());
            if is_text(name, "NEG") && args.len() == 1 {
                assert(exprs_view(args@)[0] == args@[0]@);
                is_one_literal(&args[0])
            } else {
                false
            }
        },
        _ => false,
    }
}

/// Whether a right-hand side takes the intercept away.
pub fn has_intercept_removal(expr: &Expr) -> (r: bool)
    ensures
        r == removes_intercept(expr@),
{
    match expr {
        Expr::Sum(terms) => {
            let ghost ts = exprs_view(terms@);
            let mut i: usize = 0;
            assert(expr@ == ExprView::Sum(ts));
            while i < terms.len()
                invariant
                    i <= terms.len(),
                    ts == exprs_view(terms@),
                    expr@ == ExprView::Sum(ts),
                    forall|j: int| 0 <= j < i ==> !is_minus_one(#[trigger] ts[j]),
                decreases terms.len() - i,
            {
                assert(ts[i as int] == terms@[i as int]@);
                if is_minus_one_term(&terms[i]) {
                    assert(0 <= i < ts.len() && is_minus_one(ts[i as int]));
                    assert(has_minus_one(ts));
                    return true;
                }
                i += 1;
            }
            assert(ts.len() == terms@.len());
            assert(!has_minus_one(ts));
            false
        },
        other => is_minus_one_term(other),
    }
}

fn source(df: &Table, name: &String) -> (r: Result<Vec<DesignColumn>, Error>)
    requires
        valid_table(df@),
    ensures
        cols_agree(r, source_column(df@, name@)),
{
    match df.column(name.as_str()) {
        Some(c) => Ok(one_column(plain(name))),
        None => Err(missing(name.as_str())),
    }
}

/// The column of a response.
pub fn materialize_response(df: &Table, response: &Response) -> (r: Result<
    Vec<DesignColumn>,
    Error,
>)
    requires
        valid_table(df@),
    ensures
        cols_agree(r, response_columns(df@, response@)),
{
    match response {
        Response::Var(name) => source(df, name),
        Response::BinomialTrials { successes, trials } => match successes {
            Expr::Var(name) => source(df, name),
            _ => Err(semantic("Binomial successes must be a variable name")),
        },
        Response::Multi(names) => {
            assert(texts_view(names@).len() == names@.len());
            if names.len() == 0 {
                Err(semantic("Empty multi-response specification"))
            } else {
                assert(texts_view(names@)[0] == names@[0]@);
                source(df, &names[0])
            }
        },
        Response::Surv { time, event, time2 } => match materialize_expr(df, time) {
            Ok(c) => Ok(one_column(c)),
            Err(e) => Err(e),
        },
        Response::Func { name, args } => {
            assert(exprs_view(args@).len() == args@.len());
            if args.len() == 0 {
                Err(semantic("Function response with no arguments"))
            } else {
                assert(exprs_view(args@)[0] == args@[0]@);
                match materialize_expr(df, &args[0]) {
                    Ok(c) => Ok(one_column(c)),
                    Err(e) => Err(e),
                }
            }
        },
    }
}

fn random_intercepts(group: &String, levels: &Vec<String>) -> (r: Vec<DesignColumn>)
    ensures
        design_columns_view(r@) == intercept_columns(group@, texts_view(levels@)),
{
    let mut out: Vec<DesignColumn> = Vec::new();
    let ghost want = intercept_columns(group@, texts_view(levels@));
    let mut i: usize = 0;
    assert(design_columns_view(out@) =~= want.take(0));
    while i < levels.len()
        invariant
            i <= levels.len(),
            want == intercept_columns(group@, texts_view(levels@)),
            design_columns_view(out@) == want.take(i as int),
        decreases levels.len() - i,
    {
        assert(texts_view(levels@)[i as int] == levels@[i as int]@);
        let mut name = glue3("ri(", group.as_str(), "=");
        name.append(levels[i].as_str());
        name.append(")");
        let c = DesignColumn {
            name,
            values: Values::Indicator { column: group.clone(), level: levels[i].clone() },
        };
        push_column(&mut out, c);
        assert(want.take(i + 1) =~= want.take(i as int).push(want[i as int]));
        i += 1;
    }
    assert(want.take(levels.len() as int) =~= want);
    out
}

fn random_slopes(var: &String, group: &String, levels: &Vec<String>) -> (r: Vec<DesignColumn>)
    ensures
        design_columns_view(r@) == slope_columns(var@, group@, texts_view(levels@)),
{
    let mut out: Vec<DesignColumn> = Vec::new();
    let ghost want = slope_columns(var@, group@, texts_view(levels@));
    let mut i: usize = 0;
    assert(design_columns_view(out@) =~= want.take(0));
    while i < levels.len()
        invariant
            i <= levels.len(),
            want == slope_columns(var@, group@, texts_view(levels@)),
            design_columns_view(out@) == want.take(i as int),
        decreases levels.len() - i,
    {
        assert(texts_view(levels@)[i as int] == levels@[i as int]@);
        let mut name = glue3("rs(", var.as_str(), "|");
        name.append(group.as_str());
        name.append("=");
        name.append(levels[i].as_str());
        name.append(")");
        let c = DesignColumn {
            name,
            values: Values::Masked {
                value: var.clone(),
                column: group.clone(),
                level: levels[i].clone(),
            },
        };
        push_column(&mut out, c);
        assert(want.take(i + 1) =~= want.take(i as int).push(want[i as int]));
        i += 1;
    }
    assert(want.take(levels.len() as int) =~= want);
    out
}

/// The name of the variable of a random slope `0 + v`.
fn slope_variable(inner: &Expr) -> (r: Option<&String>)
    ensures
        match r {
            Some(v) => inner@ matches ExprView::Sum(ts) && ts.len() == 2 && ts[0]
                == ExprView::Intercept(false) && ts[1] == ExprView::Var(v@),
            None => !(inner@ matches ExprView::Sum(ts) && ts.len() == 2 && ts[0]
                == ExprView::Intercept(false) && ts[1] is Var),
        },
{
    match inner {
        Expr::Sum(terms) => {
            assert(exprs_view(terms@).len() == terms@.len());
            if terms.len() == 2 {
                assert(exprs_view(terms@)[0] == terms@[0]@);
                assert(exprs_view(terms@)[1] == terms@[1]@);
                match (&terms[0], &terms[1]) {
                    (Expr::Intercept(false), Expr::Var(v)) => Some(v),
                    _ => None,
                }
            } else {
                None
            }
        },
        _ => None,
    }
}

/// The random-effect columns of a group term.
pub fn materialize_group_to_columns(df: &Table, inner: &Expr, spec: &GroupSpec) -> (r: Result<
    Vec<DesignColumn>,
    Error,
>)
    requires
        valid_table(df@),
    ensures
        cols_agree(r, group_columns(df@, inner@, spec@)),
{
    match spec {
        GroupSpec::Func { name, args } => Ok(no_columns()),
        GroupSpec::Expr(chain) => {
            assert(chain_view(chain.0@).len() == chain.0@.len());
            if chain.0.len() == 0 {
                return Ok(no_columns());
            }
            assert(chain_view(chain.0@)[0].0 == chain.0@[0].0@);
            let group = &chain.0[0].0;
            match df.column(group.as_str()) {
                None => Err(
                    Error::Semantic(glue3("Group variable '", group.as_str(), "' not found")),
                ),
                Some(c) => {
                    if c.kind == ColumnKind::Other {
                        return Err(semantic("Group variable must be string or numeric"));
                    }
                    assert(texts_view(c.levels@).len() == c.levels@.len());
                    match inner {
                        Expr::Intercept(b) => {
                            if *b {
                                Ok(random_intercepts(group, &c.levels))
                            } else {
                                Ok(no_columns())
                            }
                        },
                        other => match slope_variable(other) {
                            None => Ok(no_columns()),
                            Some(v) => match df.column(v.as_str()) {
                                None => Err(
                                    Error::Semantic(
                                        glue3("Variable '", v.as_str(), "' not found"),
                                    ),
                                ),
                                Some(sc) => {
                                    if c.levels.len() > 0 && sc.kind != ColumnKind::Float
                                        && sc.kind != ColumnKind::Int {
                                        Err(
                                            semantic(
                                                "Variable column must be numeric (i64 or f64)",
                                            ),
                                        )
                                    } else {
                                        Ok(random_slopes(v, group, &c.levels))
                                    }
                                },
                            },
                        },
                    }
                },
            }
        },
    }
}

fn cross_with(a: &DesignColumn, b: &Vec<DesignColumn>, out: &mut Vec<DesignColumn>)
    ensures
        design_columns_view(final(out)@) == design_columns_view(old(out)@) + crossed_with(
            a@,
            design_columns_view(b@),
        ),
{
    let ghost start = design_columns_view(out@);
    let ghost want = crossed_with(a@, design_columns_view(b@));
    let mut j: usize = 0;
    assert(design_columns_view(out@) =~= start + want.take(0));
    while j < b.len()
        invariant
            j <= b.len(),
            want == crossed_with(a@, design_columns_view(b@)),
            design_columns_view(out@) == start + want.take(j as int),
        decreases b.len() - j,
    {
        assert(design_columns_view(b@)[j as int] == b@[j as int]@);
        let mut name = glue3(a.name.as_str(), "_x_", b[j].name.as_str());
        let mut factors: Vec<Values> = Vec::new();
        factors.push(copy_values(&a.values));
        factors.push(copy_values(&b[j].values));
        assert(crate::design::factors_view(factors@) =~= seq![a@.values, b@[j as int]@.values]);
        let c = DesignColumn { name, values: Values::Product(factors) };
        push_column(out, c);
        assert(want.take(j + 1) =~= want.take(j as int).push(want[j as int]));
        assert(design_columns_view(out@) =~= start + want.take(j + 1));
        j += 1;
    }
    assert(want.take(b.len() as int) =~= want);
}

fn cross(a: &Vec<DesignColumn>, b: &Vec<DesignColumn>) -> (r: Vec<DesignColumn>)
    ensures
        design_columns_view(r@) == crossed(
            design_columns_view(a@),
            design_columns_view(b@),
            a@.len(),
        ),
{
    let mut out = no_columns();
    let mut i: usize = 0;
    let ghost av = design_columns_view(a@);
    let ghost bv = design_columns_view(b@);
    while i < a.len()
        invariant
            i <= a.len(),
            av == design_columns_view(a@),
            bv == design_columns_view(b@),
            design_columns_view(out@) == crossed(av, bv, i as nat),
        decreases a.len() - i,
    {
        assert(av[i as int] == a@[i as int]@);
        cross_with(&a[i], b, &mut out);
        i += 1;
    }
    out
}

pub proof fn lemma_columns_error_stays(t: TableView, ts: Seq<ExprView>, i: nat, n: nat)
    requires
        i <= n <= ts.len(),
        columns_each(t, ts, i) is Err,
    ensures
        columns_each(t, ts, n) == columns_each(t, ts, i),
    decreases n - i,
{
    if i < n {
        lemma_columns_error_stays(t, ts, i, (n - 1) as nat);
    }
}

pub proof fn lemma_factors_error_stays(t: TableView, ts: Seq<ExprView>, i: nat, n: nat)
    requires
        i <= n <= ts.len(),
        factor_sets(t, ts, i) is Err,
    ensures
        factor_sets(t, ts, n) == factor_sets(t, ts, i),
    decreases n - i,
{
    if i < n {
        lemma_factors_error_stays(t, ts, i, (n - 1) as nat);
    }
}

/// The fixed-effect columns and the random-effect columns of an expression.
pub fn materialize_expr_to_columns_with_random(df: &Table, expr: &Expr) -> (r: Result<
    (Vec<DesignColumn>, Vec<DesignColumn>),
    Error,
>)
    requires
        valid_table(df@),
    ensures
        pair_agrees(r, columns_of(df@, expr@)),
    decreases expr, 1nat,
{
    match expr {
        Expr::Sum(terms) => concat_terms(df, terms),
        Expr::Prod(terms) => concat_terms(df, terms),
        Expr::Group { inner, spec, kind, id } => match materialize_group_to_columns(
            df,
            inner,
            spec,
        ) {
            Ok(cols) => Ok((no_columns(), cols)),
            Err(e) => Err(e),
        },
        Expr::Interaction(terms) => cross_terms(df, terms),
        Expr::Func { name, args } => {
            assert(exprs_view(args@).len() == args@.len());
            if is_text(name, "NEG") {
                if args.len() != 1 {
                    Err(semantic("NEG function with wrong number of arguments"))
                } else {
                    proof {
                        assert(decreases_to!(*args => args[0]));
                        assert(exprs_view(args@)[0] == args@[0]@);
                    }
                    if is_one_literal(&args[0]) {
                        Ok((no_columns(), no_columns()))
                    } else {
                        materialize_expr_to_columns_with_random(df, &args[0])
                    }
                }
            } else if is_text(name, "poly") {
                match materialize_poly_to_columns(df, args) {
                    Ok(cols) => Ok((cols, no_columns())),
                    Err(e) => Err(e),
                }
            } else {
                single(df, expr)
            }
        },
        Expr::Var(name) => match df.column(name.as_str()) {
            None => Err(missing(name.as_str())),
            Some(c) => {
                if c.kind == ColumnKind::Str {
                    Ok((create_categorical_contrasts(c, name), no_columns()))
                } else {
                    Ok((one_column(plain(name)), no_columns()))
                }
            },
        },
        other => single(df, other),
    }
}

fn smooth_word(kind: SmoothKind) -> (r: &'static str)
    ensures
        r@ == crate::pretty::smooth_kind_text(kind),
{
    match kind {
        SmoothKind::S => "s",
        SmoothKind::T2 => "t2",
        SmoothKind::TE => "te",
        SmoothKind::TI => "ti",
    }
}

fn name_of(expr: &Expr) -> (r: String)
    ensures
        r@ == fallback_name(expr@),
{
    match expr {
        Expr::Num(n) => {
            let mut out = String::from_str("constant_");
            out.append(n.as_str());
            out
        },
        Expr::Intercept(b) => if *b {
            String::from_str("intercept")
        } else {
            String::from_str("zero")
        },
        Expr::Func { name, args } => name.clone(),
        Expr::Smooth { kind, vars, args } => {
            let joined = join_strings(vars, "_");
            glue3(smooth_word(*kind), "_", joined.as_str())
        },
        _ => String::from_str("expr"),
    }
}

fn single(df: &Table, expr: &Expr) -> (r: Result<(Vec<DesignColumn>, Vec<DesignColumn>), Error>)
    requires
        valid_table(df@),
    ensures
        pair_agrees(r, single_column(df@, expr@)),
    decreases expr, 0nat,
{
    match materialize_expr(df, expr) {
        Ok(c) => {
            let named = DesignColumn { name: name_of(expr), values: c.values };
            Ok((one_column(named), no_columns()))
        },
        Err(e) => Err(e),
    }
}

fn concat_terms(df: &Table, terms: &Vec<Expr>) -> (r: Result<
    (Vec<DesignColumn>, Vec<DesignColumn>),
    Error,
>)
    requires
        valid_table(df@),
    ensures
        pair_agrees(r, columns_each(df@, exprs_view(terms@), terms@.len())),
    decreases terms, 0nat,
{
    let ghost ts = exprs_view(terms@);
    let mut fixed = no_columns();
    let mut random = no_columns();
    let mut i: usize = 0;
    while i < terms.len()
        invariant
            valid_table(df@),
            i <= terms.len(),
            ts == exprs_view(terms@),
            columns_each(df@, ts, i as nat) == Ok::<(Cols, Cols), Text>(
                (design_columns_view(fixed@), design_columns_view(random@)),
            ),
        decreases terms.len() - i,
    {
        proof {
            assert(decreases_to!(*terms => terms[i as int]));
            assert(ts[i as int] == terms@[i as int]@);
        }
        match materialize_expr_to_columns_with_random(df, &terms[i]) {
            Err(e) => {
                proof {
                    lemma_columns_error_stays(df@, ts, (i + 1) as nat, ts.len());
                }
                return Err(e);
            },
            Ok((f, r)) => {
                append_columns(&mut fixed, f);
                append_columns(&mut random, r);
            },
        }
        i += 1;
    }
    Ok((fixed, random))
}

/// The views of the column sets of a list.
pub open spec fn sets_view(sets: Seq<Vec<DesignColumn>>) -> Seq<Cols> {
    Seq::new(sets.len(), |i: int| design_columns_view(sets[i]@))
}

fn cross_terms(df: &Table, terms: &Vec<Expr>) -> (r: Result<
    (Vec<DesignColumn>, Vec<DesignColumn>),
    Error,
>)
    requires
        valid_table(df@),
    ensures
        pair_agrees(r, columns_of(df@, ExprView::Interaction(exprs_view(terms@)))),
    decreases terms, 0nat,
{
    let ghost ts = exprs_view(terms@);
    assert(ts.len() == terms@.len());
    let mut sets: Vec<Vec<DesignColumn>> = Vec::new();
    let mut i: usize = 0;
    assert(sets_view(sets@) =~= Seq::<Cols>::empty());
    while i < terms.len()
        invariant
            valid_table(df@),
            i <= terms.len(),
            ts == exprs_view(terms@),
            factor_sets(df@, ts, i as nat) == Ok::<Seq<Cols>, Text>(sets_view(sets@)),
            sets@.len() == i,
        decreases terms.len() - i,
    {
        proof {
            assert(decreases_to!(*terms => terms[i as int]));
            assert(ts[i as int] == terms@[i as int]@);
        }
        match materialize_expr_to_columns_with_random(df, &terms[i]) {
            Err(e) => {
                proof {
                    lemma_factors_error_stays(df@, ts, (i + 1) as nat, ts.len());
                }
                return Err(e);
            },
            Ok((f, r)) => {
                let ghost before = sets_view(sets@);
                sets.push(f);
                assert(sets_view(sets@) =~= before.push(design_columns_view(f@)));
            },
        }
        i += 1;
    }
    let ghost all = sets_view(sets@);
    if sets.len() == 0 {
        return Ok((no_columns(), no_columns()));
    }
    let mut acc: Vec<DesignColumn> = Vec::new();
    let mut k: usize = 0;
    while k < sets[0].len()
        invariant
            k <= sets@[0]@.len(),
            sets@.len() > 0,
            design_columns_view(acc@) == design_columns_view(sets@[0]@).take(k as int),
        decreases sets@[0]@.len() - k,
    {
        let ghost first = design_columns_view(sets@[0]@);
        assert(first[k as int] == sets@[0]@[k as int]@);
        push_column(&mut acc, sets[0][k].clone());
        assert(first.take(k + 1) =~= first.take(k as int).push(first[k as int]));
        k += 1;
    }
    proof {
        let first = design_columns_view(sets@[0]@);
        assert(first.take(sets@[0]@.len() as int) =~= first);
        assert(all[0] == first);
    }
    let mut n: usize = 1;
    while n < sets.len()
        invariant
            1 <= n <= sets.len(),
            all == sets_view(sets@),
            design_columns_view(acc@) == cross_all(all, n as nat),
        decreases sets.len() - n,
    {
        assert(all[n as int] == design_columns_view(sets@[n as int]@));
        assert(design_columns_view(acc@).len() == acc@.len());
        acc = cross(&acc, &sets[n]);
        n += 1;
    }
    Ok((acc, no_columns()))
}

fn count_before(names: &Vec<String>, i: usize) -> (r: usize)
    requires
        i < names.len(),
    ensures
        r == occurrences(texts_view(names@), i as int, i as nat),
{
    let ghost view = texts_view(names@);
    let mut count: usize = 0;
    let mut j: usize = 0;
    while j < i
        invariant
            j <= i < names.len(),
            view == texts_view(names@),
            count == occurrences(view, i as int, j as nat),
            count <= j,
        decreases i - j,
    {
        assert(view[j as int] == names@[j as int]@);
        assert(view[i as int] == names@[i as int]@);
        if names[j] == names[i] {
            count += 1;
        }
        j += 1;
    }
    count
}

fn final_column_names(names: &Vec<String>, clean: bool) -> (r: Vec<String>)
    ensures
        texts_view(r@) == final_names(texts_view(names@), clean),
{
    let ghost view = texts_view(names@);
    let ghost want = final_names(view, clean);
    let mut out: Vec<String> = Vec::new();
    let mut i: usize = 0;
    assert(texts_view(out@) =~= want.take(0));
    while i < names.len()
        invariant
            i <= names.len(),
            view == texts_view(names@),
            want == final_names(view, clean),
            texts_view(out@) == want.take(i as int),
        decreases names.len() - i,
    {
        assert(view[i as int] == names@[i as int]@);
        let before = count_before(names, i);
        let unique = if before == 0 {
            names[i].clone()
        } else {
            let number = decimal_string(before);
            glue3(names[i].as_str(), "_", number.as_str())
        };
        let name = if clean {
            make_clean_names(unique.as_str())
        } else {
            unique
        };
        crate::ast::push_text(&mut out, name);
        assert(want.take(i + 1) =~= want.take(i as int).push(want[i as int]));
        i += 1;
    }
    assert(want.take(names.len() as int) =~= want);
    out
}

fn find_repeat(names: &Vec<String>) -> (r: usize)
    ensures
        r as int == first_repeat(texts_view(names@), names@.len()),
{
    let ghost view = texts_view(names@);
    assert(view.len() == names@.len());
    let mut i: usize = 0;
    while i < names.len()
        invariant
            i <= names.len(),
            view == texts_view(names@),
            first_repeat(view, i as nat) == view.len(),
        decreases names.len() - i,
    {
        let mut seen = false;
        let mut j: usize = 0;
        while j < i
            invariant
                j <= i < names.len(),
                view == texts_view(names@),
                seen == exists|k: int| 0 <= k < j && #[trigger] view[k] == view[i as int],
            decreases i - j,
        {
            assert(view[j as int] == names@[j as int]@);
            assert(view[i as int] == names@[i as int]@);
            if names[j] == names[i] {
                seen = true;
            }
            j += 1;
        }
        if seen {
            proof {
                lemma_repeat_stays(view, (i + 1) as nat, view.len());
            }
            return i;
        }
        i += 1;
    }
    names.len()
}

proof fn lemma_repeat_stays(names: Seq<Text>, i: nat, n: nat)
    requires
        i <= n <= names.len(),
        first_repeat(names, i) < names.len(),
    ensures
        first_repeat(names, n) == first_repeat(names, i),
    decreases n - i,
{
    if i < n {
        lemma_repeat_stays(names, i, (n - 1) as nat);
    }
}

/// The design table of a list of columns.
pub fn build_dataframe_from_cols(
    cols: Vec<DesignColumn>,
    opts: &MaterializeOptions,
    height: usize,
) -> (r: Result<DesignTable, Error>)
    ensures
        table_agrees(r, built(design_columns_view(cols@), opts.clean_names, height as nat)),
{
    let ghost view = design_columns_view(cols@);
    assert(view.len() == cols@.len());
    if cols.len() == 0 {
        return Ok(DesignTable { columns: no_columns(), rows: 0 });
    }
    let mut names: Vec<String> = Vec::new();
    let mut i: usize = 0;
    assert(texts_view(names@) =~= names_of(view).take(0));
    while i < cols.len()
        invariant
            i <= cols.len(),
            view == design_columns_view(cols@),
            texts_view(names@) == names_of(view).take(i as int),
        decreases cols.len() - i,
    {
        assert(view[i as int] == cols@[i as int]@);
        crate::ast::push_text(&mut names, cols[i].name.clone());
        assert(names_of(view).take(i + 1) =~= names_of(view).take(i as int).push(
            names_of(view)[i as int],
        ));
        i += 1;
    }
    assert(names_of(view).take(cols.len() as int) =~= names_of(view));
    let finals = final_column_names(&names, opts.clean_names);
    let ghost fv = texts_view(finals@);
    assert(fv.len() == finals@.len());
    let repeat = find_repeat(&finals);
    if repeat < finals.len() {
        assert(fv[repeat as int] == finals@[repeat as int]@);
        return Err(
            Error::Semantic(
                glue3(
                    "duplicate: column with name '",
                    finals[repeat].as_str(),
                    "' has more than one occurrence",
                ),
            ),
        );
    }
    let mut out: Vec<DesignColumn> = Vec::new();
    let ghost want = renamed(view, fv);
    let mut k: usize = 0;
    assert(design_columns_view(out@) =~= want.take(0));
    while k < cols.len()
        invariant
            k <= cols.len(),
            cols@.len() == finals@.len(),
            view == design_columns_view(cols@),
            fv == texts_view(finals@),
            want == renamed(view, fv),
            design_columns_view(out@) == want.take(k as int),
        decreases cols.len() - k,
    {
        assert(view[k as int] == cols@[k as int]@);
        assert(fv[k as int] == finals@[k as int]@);
        let c = DesignColumn { name: finals[k].clone(), values: copy_values(&cols[k].values) };
        push_column(&mut out, c);
        assert(want.take(k + 1) =~= want.take(k as int).push(want[k as int]));
        k += 1;
    }
    assert(want.take(cols.len() as int) =~= want);
    Ok(DesignTable { columns: out, rows: height })
}

/// Whether three computed design tables agree with what the layout says.
pub open spec fn tables_agree(
    r: Result<(DesignTable, DesignTable, DesignTable), Error>,
    m: Result<(DesignTableView, DesignTableView, DesignTableView), Text>,
) -> bool {
    match r {
        Ok(v) => m == Ok::<(DesignTableView, DesignTableView, DesignTableView), Text>(
            (v.0@, v.1@, v.2@),
        ),
        Err(e) => e matches Error::Semantic(msg) && m == Err::<
            (DesignTableView, DesignTableView, DesignTableView),
            Text,
        >(msg@),
    }
}

/// Whether two computed design tables agree with what the layout says.
pub open spec fn two_tables_agree(
    r: Result<(DesignTable, DesignTable), Error>,
    m: Result<(DesignTableView, DesignTableView), Text>,
) -> bool {
    match r {
        Ok(v) => m == Ok::<(DesignTableView, DesignTableView), Text>((v.0@, v.1@)),
        Err(e) => e matches Error::Semantic(msg) && m == Err::<
            (DesignTableView, DesignTableView),
            Text,
        >(msg@),
    }
}

/// The design tables of the fixed effects and of the random effects of a
/// right-hand side.
pub fn materialize_rhs_with_random(df: &Table, rhs: &Expr, opts: &MaterializeOptions) -> (r:
    Result<(DesignTable, DesignTable), Error>)
    requires
        valid_table(df@),
    ensures
        two_tables_agree(
            r,
            rhs_tables(df@, rhs@, opts.rhs_intercept, opts.intercept_name@, opts.clean_names),
        ),
{
    let mut fixed = no_columns();
    if opts.rhs_intercept {
        push_column(
            &mut fixed,
            DesignColumn { name: String::from_str(opts.intercept_name), values: Values::Ones },
        );
    }
    assert(design_columns_view(fixed@) =~= head_columns(
        opts.rhs_intercept,
        opts.intercept_name@,
    ));
    match materialize_expr_to_columns_with_random(df, rhs) {
        Err(e) => Err(e),
        Ok((f, r)) => {
            append_columns(&mut fixed, f);
            match build_dataframe_from_cols(fixed, opts, df.height) {
                Err(e) => Err(e),
                Ok(x) => match build_dataframe_from_cols(r, opts, df.height) {
                    Err(e) => Err(e),
                    Ok(z) => Ok((x, z)),
                },
            }
        },
    }
}

/// The three design tables of a formula.
pub fn materialize_formula(df: &Table, formula: &Formula, opts: MaterializeOptions) -> (r: Result<
    (DesignTable, DesignTable, DesignTable),
    Error,
>)
    requires
        valid_table(df@),
    ensures
        tables_agree(
            r,
            formula_tables(
                df@,
                formula@,
                opts.rhs_intercept,
                opts.intercept_name@,
                opts.clean_names,
            ),
        ),
{
    let mut opts = opts;
    if has_intercept_removal(&formula.rhs) {
        opts.rhs_intercept = false;
    }
    match materialize_response(df, &formula.lhs) {
        Err(e) => Err(e),
        Ok(y) => match materialize_rhs_with_random(df, &formula.rhs, &opts) {
            Err(e) => Err(e),
            Ok((x, z)) => Ok((DesignTable { columns: y, rows: df.height }, x, z)),
        },
    }
}

/// The three design tables of a model: response, fixed effects and random
/// effects; a semantic error where the model cannot be laid out against the
/// table.
pub fn materialize(df: &Table, spec: &ModelSpec, opts: MaterializeOptions) -> (r: Result<
    (DesignTable, DesignTable, DesignTable),
    Error,
>)
    requires
        valid_table(df@),
    ensures
        tables_agree(
            r,
            materialized(df@, spec@, opts.rhs_intercept, opts.intercept_name@, opts.clean_names),
        ),
{
    materialize_formula(df, &spec.formula, opts)
}

} // verus!
