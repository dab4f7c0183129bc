//! The single column that stands for an expression, and the columns of
//! polynomials and of categorical variables.

use crate::ast::{exprs_view, is_text, texts_view, Expr, ExprView, Text};
use crate::design::{
    design_columns_view, push_column, DesignColumn, DesignColumnView, Values, ValuesView,
};
use crate::layout::{
    column, contrast_columns, degree_of, digits_value, missing_column, orthogonal_columns,
    plain_column, poly_columns, raw_columns, series_each, series_of, too_few_levels, values_of,
    variable_series, whole_len, Cols,
};
use crate::pretty::pretty_expr;
use crate::table::{levels_of, valid_table, Column, ColumnKind, Table};
use crate::text::{chars_of, decimal_string, digit, is_digit};
use crate::Error;
use vstd::prelude::*;

verus! {

/// Whether a computed column agrees with what the layout says.
pub open spec fn series_agrees(r: Result<DesignColumn, Error>, m: Result<DesignColumnView, Text>) -> bool {
    match r {
        Ok(c) => m == Ok::<DesignColumnView, Text>(c@),
        Err(e) => e matches Error::Semantic(msg) && m == Err::<DesignColumnView, Text>(msg@),
    }
}

/// Whether computed columns agree with what the layout says.
pub open spec fn cols_agree(r: Result<Vec<DesignColumn>, Error>, m: Result<Cols, Text>) -> bool {
    match r {
        Ok(v) => m == Ok::<Cols, Text>(design_columns_view(v@)),
        Err(e) => e matches Error::Semantic(msg) && m == Err::<Cols, Text>(msg@),
    }
}

pub fn semantic(msg: &str) -> (r: Error)
    ensures
        r matches Error::Semantic(m) && m@ == msg@,
{
    Error::Semantic(String::from_str(msg))
}

/// The text of three parts.
pub fn glue3(a: &str, b: &str, c: &str) -> (r: String)
    ensures
        r@ == a@ + b@ + c@,
{
    let mut out = String::from_str(a);
    out.append(b);
    out.append(c);
    out
}

pub fn missing(name: &str) -> (r: Error)
    ensures
        r matches Error::Semantic(m) && m@ == missing_column(name@),
{
    Error::Semantic(glue3("Column '", name, "' not found in DataFrame"))
}

proof fn lemma_digits_grow(d: Text, c: char)
    requires
        is_digit(c),
    ensures
        digits_value(d.push(c)) == digits_value(d) * 10 + (c as nat - '0' as nat),
        digits_value(d.push(c)) >= digits_value(d),
{
    assert(d.push(c).drop_last() =~= d);
    assert(d.push(c).last() == c);
}

/// The whole part of a number, as far as a machine word holds it.
pub fn degree_from(n: &String) -> (r: usize)
    ensures
        r == degree_of(n@),
{
    let cs = chars_of(n.as_str());
    let mut value: usize = 0;
    let mut over = false;
    let mut i: usize = 0;
    assert(cs@.subrange(0, 0) =~= Seq::<char>::empty());
    assert(cs@.subrange(0, cs@.len() as int) =~= cs@);
    while i < cs.len() && digit(cs[i])
        invariant
            i <= cs.len(),
            whole_len(cs@) == i + whole_len(cs@.subrange(i as int, cs@.len() as int)),
            !over ==> value == digits_value(cs@.subrange(0, i as int)),
            over ==> digits_value(cs@.subrange(0, i as int)) > usize::MAX,
        decreases cs.len() - i,
    {
        let c = cs[i];
        proof {
            let rest = cs@.subrange(i as int, cs@.len() as int);
            assert(rest[0] == c);
            assert(rest.drop_first() =~= cs@.subrange(i + 1, cs@.len() as int));
            assert(cs@.subrange(0, i + 1) =~= cs@.subrange(0, i as int).push(c));
            lemma_digits_grow(cs@.subrange(0, i as int), c);
        }
        let d: usize = (c as u8 - '0' as u8) as usize;
        if !over {
            if value > (usize::MAX - d) / 10 {
                over = true;
            } else {
                value = value * 10 + d;
            }
        }
        i += 1;
    }
    proof {
        let rest = cs@.subrange(i as int, cs@.len() as int);
        if i < cs.len() {
            assert(rest[0] == cs@[i as int]);
        }
        assert(whole_len(cs@) == i);
    }
    if over {
        usize::MAX
    } else {
        value
    }
}

/// A column of the data as it is.
pub fn plain(name: &String) -> (r: DesignColumn)
    ensures
        r@ == plain_column(name@),
{
    DesignColumn { name: name.clone(), values: Values::Column(name.clone()) }
}

/// The contrast columns of a categorical variable.
pub fn create_categorical_contrasts(series: &Column, var_name: &String) -> (r: Vec<DesignColumn>)
    ensures
        design_columns_view(r@) == contrast_columns(series@, var_name@),
{
    let levels = series.sorted_levels();
    let mut out: Vec<DesignColumn> = Vec::new();
    assert(texts_view(levels@).len() == levels@.len());
    if levels.len() <= 1 {
        assert(design_columns_view(out@) =~= Seq::<DesignColumnView>::empty());
        return out;
    }
    let ghost want = contrast_columns(series@, var_name@);
    let mut i: usize = 1;
    assert(design_columns_view(out@) =~= want.take(0));
    while i < levels.len()
        invariant
            1 <= i <= levels.len(),
            levels@.len() > 1,
            texts_view(levels@) == levels_of(series@.values),
            want == contrast_columns(series@, var_name@),
            design_columns_view(out@) == want.take(i - 1),
        decreases levels.len() - i,
    {
        assert(texts_view(levels@)[i as int] == levels@[i as int]@);
        let name = glue3(var_name.as_str(), "_", levels[i].as_str());
        let c = DesignColumn {
            name,
            values: Values::Indicator { column: var_name.clone(), level: levels[i].clone() },
        };
        push_column(&mut out, c);
        assert(want.take(i as int) =~= want.take(i - 1).push(want[i - 1]));
        i += 1;
    }
    assert(want.take(levels.len() - 1) =~= want);
    out
}

/// The single column of a categorical variable: the indicator of its second
/// level.
pub fn materialize_categorical_to_contrasts(series: &Column, var_name: &String) -> (r: Result<
    DesignColumn,
    Error,
>)
    ensures
        series_agrees(
            r,
            if levels_of(series@.values).len() < 2 {
                Err(too_few_levels(var_name@, levels_of(series@.values).len()))
            } else {
                Ok(
                    column(
                        var_name@ + "_"@ + levels_of(series@.values)[1] + "_vs_"@ + levels_of(
                            series@.values,
                        )[0],
                        ValuesView::Indicator {
                            column: var_name@,
                            level: levels_of(series@.values)[1],
                        },
                    ),
                )
            },
        ),
{
    let levels = series.sorted_levels();
    assert(texts_view(levels@).len() == levels@.len());
    if levels.len() < 2 {
        let mut msg = glue3(
            "Categorical variable '",
            var_name.as_str(),
            "' must have at least 2 levels, found ",
        );
        let found = decimal_string(levels.len());
        msg.append(found.as_str());
        return Err(Error::Semantic(msg));
    }
    assert(texts_view(levels@)[0] == levels@[0]@);
    assert(texts_view(levels@)[1] == levels@[1]@);
    let mut name = glue3(var_name.as_str(), "_", levels[1].as_str());
    name.append("_vs_");
    name.append(levels[0].as_str());
    Ok(
        DesignColumn {
            name,
            values: Values::Indicator { column: var_name.clone(), level: levels[1].clone() },
        },
    )
}

fn variable(df: &Table, name: &String) -> (r: Result<DesignColumn, Error>)
    requires
        valid_table(df@),
    ensures
        series_agrees(r, variable_series(df@, name@)),
{
    match df.column(name.as_str()) {
        None => Err(missing(name.as_str())),
        Some(c) => {
            if c.kind == ColumnKind::Str {
                materialize_categorical_to_contrasts(c, name)
            } else {
                Ok(plain(name))
            }
        },
    }
}

fn raw_poly(var: &String, degree: usize) -> (r: Vec<DesignColumn>)
    ensures
        design_columns_view(r@) == raw_columns(var@, degree as nat),
{
    let mut out: Vec<DesignColumn> = Vec::new();
    let ghost want = raw_columns(var@, degree as nat);
    let mut i: usize = 0;
    assert(design_columns_view(out@) =~= want.take(0));
    while i < degree
        invariant
            i <= degree,
            want == raw_columns(var@, degree as nat),
            design_columns_view(out@) == want.take(i as int),
        decreases degree - i,
    {
        let name = if i == 0 {
            var.clone()
        } else {
            let number = decimal_string(i + 1);
            glue3(var.as_str(), "_", number.as_str())
        };
        let c = DesignColumn {
            name,
            values: Values::Power { column: var.clone(), exponent: i + 1 },
        };
        push_column(&mut out, c);
        assert(want.take(i + 1) =~= want.take(i as int).push(want[i as int]));
        i += 1;
    }
    assert(want.take(degree as int) =~= want);
    out
}

fn orthogonal_poly(var: &String, degree: usize) -> (r: Vec<DesignColumn>)
    ensures
        design_columns_view(r@) == orthogonal_columns(var@, degree as nat),
{
    let mut out: Vec<DesignColumn> = Vec::new();
    let ghost want = orthogonal_columns(var@, degree as nat);
    let mut i: usize = 0;
    assert(design_columns_view(out@) =~= want.take(0));
    while i < degree
        invariant
            i <= degree,
            want == orthogonal_columns(var@, degree as nat),
            design_columns_view(out@) == want.take(i as int),
        decreases degree - i,
    {
        let number = decimal_string(i + 1);
        let mut name = glue3("poly_", var.as_str(), "_");
        name.append(number.as_str());
        let c = DesignColumn {
            name,
            values: Values::Orthogonal { column: var.clone(), degree, index: i + 1 },
        };
        push_column(&mut out, c);
        assert(want.take(i + 1) =~= want.take(i as int).push(want[i as int]));
        i += 1;
    }
    assert(want.take(degree as int) =~= want);
    out
}

/// The columns of `poly(var, degree, ..)`.
pub fn materialize_poly_to_columns(df: &Table, args: &Vec<Expr>) -> (r: Result<
    Vec<DesignColumn>,
    Error,
>)
    requires
        valid_table(df@),
    ensures
        cols_agree(r, poly_columns(df@, exprs_view(args@))),
{
    if args.len() < 2 {
        return Err(semantic("poly() requires at least 2 arguments"));
    }
    let ghost view = exprs_view(args@);
    assert(view[0] == args@[0]@);
    assert(view[1] == args@[1]@);
    let var = match &args[0] {
        Expr::Var(name) => name,
        _ => {
            return Err(semantic("First argument to poly() must be a variable name"));
        },
    };
    let degree = match &args[1] {
        Expr::Num(n) => degree_from(n),
        Expr::Intercept(b) => if *b {
            1
        } else {
            0
        },
        _ => {
            return Err(semantic("Second argument to poly() must be a number"));
        },
    };
    let raw = if args.len() > 2 {
        assert(view[2] == args@[2]@);
        match &args[2] {
            Expr::Bool(b) => *b,
            _ => false,
        }
    } else {
        false
    };
    match df.column(var.as_str()) {
        None => Err(missing(var.as_str())),
        Some(c) => {
            assert(texts_view(c.levels@).len() == c.levels@.len());
            if c.kind != ColumnKind::Float {
                Err(
                    Error::Semantic(
                        glue3(
                            "Column '",
                            var.as_str(),
                            "' cannot be converted to numeric for polynomial expansion",
                        ),
                    ),
                )
            } else if degree >= c.levels.len() {
                let mut msg = String::from_str(
                    "'degree' must be less than number of unique points. Got degree=",
                );
                let d = decimal_string(degree);
                msg.append(d.as_str());
                msg.append(", unique points=");
                let u = decimal_string(c.levels.len());
                msg.append(u.as_str());
                Err(Error::Semantic(msg))
            } else if raw {
                Ok(raw_poly(var, degree))
            } else {
                Ok(orthogonal_poly(var, degree))
            }
        },
    }
}

pub proof fn lemma_series_error_stays(t: crate::table::TableView, ts: Seq<ExprView>, i: nat, n: nat)
    requires
        i <= n <= ts.len(),
        series_each(t, ts, i) is Err,
    ensures
        series_each(t, ts, n) == series_each(t, ts, i),
    decreases n - i,
{
    if i < n {
        lemma_series_error_stays(t, ts, i, (n - 1) as nat);
    }
}

/// The single column that stands for an expression.
pub fn materialize_expr(df: &Table, expr: &Expr) -> (r: Result<DesignColumn, Error>)
    requires
        valid_table(df@),
    ensures
        series_agrees(r, series_of(df@, expr@)),
    decreases expr, 1nat,
{
    match expr {
        Expr::Var(name) => variable(df, name),
        Expr::Num(n) => Ok(
            DesignColumn { name: String::from_str("constant"), values: Values::Constant(n.clone()) },
        ),
        Expr::Intercept(b) => if *b {
            Ok(DesignColumn { name: String::from_str("intercept"), values: Values::Ones })
        } else {
            Ok(DesignColumn { name: String::from_str("zero"), values: Values::Zeros })
        },
        Expr::Sum(terms) => {
            assert(exprs_view(terms@).len() == terms@.len());
            if terms.len() == 0 {
                Err(semantic("Empty sum expression"))
            } else {
                proof {
                    assert(decreases_to!(*terms => terms[0]));
                    assert(exprs_view(terms@)[0] == terms@[0]@);
                }
                materialize_expr(df, &terms[0])
            }
        },
        Expr::Interaction(terms) => materialize_product(df, terms),
        Expr::Func { name, args } => materialize_call(df, name, args),
        Expr::Smooth { kind, vars, args } => {
            assert(texts_view(vars@).len() == vars@.len());
            if vars.len() == 0 {
                Err(semantic("Smooth with no variables"))
            } else {
                assert(texts_view(vars@)[0] == vars@[0]@);
                match df.column(vars[0].as_str()) {
                    Some(c) => Ok(plain(&vars[0])),
                    None => Err(missing(vars[0].as_str())),
                }
            }
        },
        Expr::Group { inner, spec, kind, id } => materialize_expr(df, inner),
        other => {
            let mut msg = String::from_str("Unsupported expression type: ");
            let text = pretty_expr(other);
            msg.append(text.as_str());
            Err(Error::Semantic(msg))
        },
    }
}

fn materialize_product(df: &Table, terms: &Vec<Expr>) -> (r: Result<DesignColumn, Error>)
    requires
        valid_table(df@),
    ensures
        series_agrees(r, series_of(df@, ExprView::Interaction(exprs_view(terms@)))),
    decreases terms, 0nat,
{
    let ghost ts = exprs_view(terms@);
    assert(ts.len() == terms@.len());
    if terms.len() == 0 {
        return Err(semantic("Empty interaction expression"));
    }
    let mut factors: Vec<Values> = Vec::new();
    let mut name = String::new();
    let ghost mut done: Cols = Seq::empty();
    let mut i: usize = 0;
    while i < terms.len()
        invariant
            valid_table(df@),
            i <= terms.len(),
            ts == exprs_view(terms@),
            series_each(df@, ts, i as nat) == Ok::<Cols, Text>(done),
            done.len() == i,
            crate::design::factors_view(factors@) == values_of(done),
            i > 0 ==> name@ == done[0].name,
        decreases terms.len() - i,
    {
        proof {
            assert(decreases_to!(*terms => terms[i as int]));
            assert(ts[i as int] == terms@[i as int]@);
        }
        match materialize_expr(df, &terms[i]) {
            Err(e) => {
                proof {
                    lemma_series_error_stays(df@, ts, (i + 1) as nat, ts.len());
                }
                return Err(e);
            },
            Ok(c) => {
                proof {
                    done = done.push(c@);
                }
                let ghost before = crate::design::factors_view(factors@);
                if i == 0 {
                    name = c.name;
                }
                factors.push(c.values);
                assert(crate::design::factors_view(factors@) =~= before.push(c@.values));
                assert(values_of(done) =~= before.push(c@.values));
            },
        }
        i += 1;
    }
    Ok(DesignColumn { name, values: Values::Product(factors) })
}

fn materialize_call(df: &Table, name: &String, args: &Vec<Expr>) -> (r: Result<
    DesignColumn,
    Error,
>)
    requires
        valid_table(df@),
    ensures
        series_agrees(r, series_of(df@, ExprView::Func { name: name@, args: exprs_view(args@) })),
    decreases args, 0nat,
{
    assert(exprs_view(args@).len() == args@.len());
    if is_text(name, "poly") {
        match materialize_poly_to_columns(df, args) {
            Err(e) => Err(e),
            Ok(cols) => {
                assert(design_columns_view(cols@).len() == cols@.len());
                if cols.len() == 0 {
                    Err(semantic("poly() returned no columns"))
                } else {
                    assert(design_columns_view(cols@)[0] == cols@[0]@);
                    Ok(cols[0].clone())
                }
            },
        }
    } else if args.len() == 0 {
        if is_text(name, "NEG") {
            Err(semantic("NEG function with no arguments"))
        } else if is_text(name, "I") {
            Err(semantic("Identity function with no arguments"))
        } else {
            Err(Error::Semantic(glue3("Unknown function '", name.as_str(), "' with no arguments")))
        }
    } else {
        proof {
            assert(decreases_to!(*args => args[0]));
            assert(exprs_view(args@)[0] == args@[0]@);
        }
        materialize_expr(df, &args[0])
    }
}

} // verus!
