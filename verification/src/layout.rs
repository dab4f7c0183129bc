//! What the design tables of a model are: which columns a formula gives
//! against a table, what they are called and how their numbers come from the
//! data.

use crate::ast::{ExprView, GroupSpecView, ModelSpecView, ResponseView, Text};
use crate::design::{names_of, DesignColumnView, DesignTableView, ValuesView};
use crate::names::clean_name;
use crate::pretty::{expr_text, smooth_kind_text};
use crate::table::{
    distinct_count, find_column, levels_of, valid_column, valid_table, ColumnKind, ColumnView,
    TableView,
};
use crate::text::{decimal, is_digit, join};
use vstd::prelude::*;

verus! {

pub type Cols = Seq<DesignColumnView>;

pub open spec fn column(name: Text, values: ValuesView) -> DesignColumnView {
    DesignColumnView { name, values }
}

// ---------------------------------------------------------------------------
// Messages
// ---------------------------------------------------------------------------

pub open spec fn missing_column(name: Text) -> Text {
    "Column '"@ + name + "' not found in DataFrame"@
}

pub open spec fn missing_group(name: Text) -> Text {
    "Group variable '"@ + name + "' not found"@
}

pub open spec fn missing_variable(name: Text) -> Text {
    "Variable '"@ + name + "' not found"@
}

pub open spec fn too_few_levels(name: Text, found: nat) -> Text {
    "Categorical variable '"@ + name + "' must have at least 2 levels, found "@ + decimal(found)
}

pub open spec fn unknown_function(name: Text) -> Text {
    "Unknown function '"@ + name + "' with no arguments"@
}

pub open spec fn unsupported(e: ExprView) -> Text {
    "Unsupported expression type: "@ + expr_text(e)
}

pub open spec fn not_numeric(name: Text) -> Text {
    "Column '"@ + name + "' cannot be converted to numeric for polynomial expansion"@
}

pub open spec fn degree_too_high(degree: nat, unique: nat) -> Text {
    "'degree' must be less than number of unique points. Got degree="@ + decimal(degree)
        + ", unique points="@ + decimal(unique)
}

pub open spec fn duplicate_name(name: Text) -> Text {
    "duplicate: column with name '"@ + name + "' has more than one occurrence"@
}

// ---------------------------------------------------------------------------
// Numbers
// ---------------------------------------------------------------------------

/// The number that a run of digits stands for.
pub open spec fn digits_value(d: Text) -> nat
    decreases d.len(),
{
    if d.len() == 0 {
        0
    } else {
        digits_value(d.drop_last()) * 10 + (d.last() as nat - '0' as nat) as nat
    }
}

/// The length of the run of digits at the start of a text.
pub open spec fn whole_len(n: Text) -> nat
    decreases n.len(),
{
    if n.len() > 0 && is_digit(n[0]) {
        1 + whole_len(n.drop_first())
    } else {
        0
    }
}

/// The whole part of the number with the given decimal text, or the largest
/// number that a machine word holds where it is larger.
pub open spec fn degree_of(n: Text) -> nat {
    let v = digits_value(n.subrange(0, whole_len(n) as int));
    if v > usize::MAX {
        usize::MAX as nat
    } else {
        v
    }
}

/// The degree that an argument of `poly` stands for: the whole part of a
/// number, 1 for the intercept `1` and 0 for `0`; none for every other
/// expression.
pub open spec fn degree_arg(e: ExprView) -> Option<nat> {
    match e {
        ExprView::Num(n) => Some(degree_of(n)),
        ExprView::Intercept(b) => Some(
            if b {
                1nat
            } else {
                0nat
            },
        ),
        _ => None,
    }
}

/// Whether an expression is the number one: the literal `1` or the
/// intercept.
pub open spec fn is_one(e: ExprView) -> bool {
    e == ExprView::Num("1"@) || e == ExprView::Intercept(true)
}

/// Whether an expression is the term `-1`.
pub open spec fn is_minus_one(e: ExprView) -> bool {
    e matches ExprView::Func { name, args } && name == "NEG"@ && args.len() == 1 && is_one(
        args[0],
    )
}

/// Whether a right-hand side takes the intercept away: it is the term `-1`
/// or a sum with such a term.
pub open spec fn removes_intercept(e: ExprView) -> bool {
    match e {
        ExprView::Sum(ts) => has_minus_one(ts),
        _ => is_minus_one(e),
    }
}

/// Whether one of the terms is `-1`.
pub open spec fn has_minus_one(ts: Seq<ExprView>) -> bool {
    exists|i: int| 0 <= i < ts.len() && is_minus_one(#[trigger] ts[i])
}

// ---------------------------------------------------------------------------
// Columns of the parts of a formula
// ---------------------------------------------------------------------------

/// A column of the data as it is.
pub open spec fn plain_column(name: Text) -> DesignColumnView {
    column(name, ValuesView::Column(name))
}

/// The contrast columns of a categorical variable in treatment coding: one
/// indicator for each level but the first, named `var_level`; none where
/// there is at most one level.
pub open spec fn contrast_columns(c: ColumnView, var: Text) -> Cols {
    let levels = levels_of(c.values);
    if levels.len() <= 1 {
        Seq::empty()
    } else {
        Seq::new(
            (levels.len() - 1) as nat,
            |i: int|
                column(
                    var + "_"@ + levels[i + 1],
                    ValuesView::Indicator { column: var, level: levels[i + 1] },
                ),
        )
    }
}

/// The raw polynomial columns: `x`, `x_2`, .., the powers of the column.
pub open spec fn raw_columns(var: Text, degree: nat) -> Cols {
    Seq::new(
        degree,
        |i: int|
            column(
                if i == 0 {
                    var
                } else {
                    var + "_"@ + decimal((i + 1) as nat)
                },
                ValuesView::Power { column: var, exponent: (i + 1) as nat },
            ),
    )
}

/// The orthogonal polynomial columns: `poly_x_1`, `poly_x_2`, ..
pub open spec fn orthogonal_columns(var: Text, degree: nat) -> Cols {
    Seq::new(
        degree,
        |i: int|
            column(
                "poly_"@ + var + "_"@ + decimal((i + 1) as nat),
                ValuesView::Orthogonal { column: var, degree, index: (i + 1) as nat },
            ),
    )
}

/// The columns of `poly(var, degree, ..)`: as many as the degree says, raw
/// where the third argument is `true`, else orthogonal. An error where the
/// arguments are not a variable and a number, where the column is missing or
/// holds no floating-point numbers, and where the degree is not less than the
/// number of distinct values of the column.
pub open spec fn poly_columns(t: TableView, args: Seq<ExprView>) -> Result<Cols, Text> {
    if args.len() < 2 {
        Err("poly() requires at least 2 arguments"@)
    } else {
        match args[0] {
            ExprView::Var(var) => match degree_arg(args[1]) {
                Some(degree) => match find_column(t, var) {
                    Some(c) => if c.kind != ColumnKind::Float {
                        Err(not_numeric(var))
                    } else if degree >= c.levels.len() {
                        Err(degree_too_high(degree, c.levels.len()))
                    } else if args.len() > 2 && args[2] == ExprView::Bool(true) {
                        Ok(raw_columns(var, degree))
                    } else {
                        Ok(orthogonal_columns(var, degree))
                    },
                    None => Err(missing_column(var)),
                },
                None => Err("Second argument to poly() must be a number"@),
            },
            _ => Err("First argument to poly() must be a variable name"@),
        }
    }
}

/// The single column that stands for a variable: the column itself, or for a
/// categorical variable the indicator of its second level.
pub open spec fn variable_series(t: TableView, name: Text) -> Result<DesignColumnView, Text> {
    match find_column(t, name) {
        Some(c) => if c.kind == ColumnKind::Str {
            let levels = levels_of(c.values);
            if levels.len() < 2 {
                Err(too_few_levels(name, levels.len()))
            } else {
                Ok(
                    column(
                        name + "_"@ + levels[1] + "_vs_"@ + levels[0],
                        ValuesView::Indicator { column: name, level: levels[1] },
                    ),
                )
            }
        } else {
            Ok(plain_column(name))
        },
        None => Err(missing_column(name)),
    }
}

/// The single column that stands for an expression.
///
/// A sum stands as its first term, an interaction as the product of its
/// factors, a function as its first argument (`poly` as its first column), a
/// smooth as its first variable, a group term as its inner expression.
pub open spec fn series_of(t: TableView, e: ExprView) -> Result<DesignColumnView, Text>
    decreases e, 0nat,
{
    match e {
        ExprView::Var(name) => variable_series(t, name),
        ExprView::Num(n) => Ok(column("constant"@, ValuesView::Constant(n))),
        ExprView::Intercept(b) => if b {
            Ok(column("intercept"@, ValuesView::Ones))
        } else {
            Ok(column("zero"@, ValuesView::Zeros))
        },
        ExprView::Sum(ts) => if ts.len() == 0 {
            Err("Empty sum expression"@)
        } else {
            series_of(t, ts[0])
        },
        ExprView::Interaction(ts) => if ts.len() == 0 {
            Err("Empty interaction expression"@)
        } else {
            match series_each(t, ts, ts.len()) {
                Ok(fs) => Ok(column(fs[0].name, ValuesView::Product(values_of(fs)))),
                Err(m) => Err(m),
            }
        },
        ExprView::Func { name, args } => if name == "poly"@ {
            match poly_columns(t, args) {
                Ok(cols) => if cols.len() == 0 {
                    Err("poly() returned no columns"@)
                } else {
                    Ok(cols[0])
                },
                Err(m) => Err(m),
            }
        } else if args.len() == 0 {
            if name == "NEG"@ {
                Err("NEG function with no arguments"@)
            } else if name == "I"@ {
                Err("Identity function with no arguments"@)
            } else {
                Err(unknown_function(name))
            }
        } else {
            series_of(t, args[0])
        },
        ExprView::Smooth { kind, vars, args } => if vars.len() == 0 {
            Err("Smooth with no variables"@)
        } else {
            match find_column(t, vars[0]) {
                Some(c) => Ok(plain_column(vars[0])),
                None => Err(missing_column(vars[0])),
            }
        },
        ExprView::Group { inner, spec, kind, id } => series_of(t, *inner),
        _ => Err(unsupported(e)),
    }
}

/// The single columns of the first `n` expressions of a list; the first
/// error where one of them has none.
pub open spec fn series_each(t: TableView, ts: Seq<ExprView>, n: nat) -> Result<Cols, Text>
    decreases ts, n,
{
    if n == 0 || n > ts.len() {
        Ok(Seq::empty())
    } else {
        match series_each(t, ts, (n - 1) as nat) {
            Ok(init) => match series_of(t, ts[n - 1]) {
                Ok(c) => Ok(init.push(c)),
                Err(m) => Err(m),
            },
            Err(m) => Err(m),
        }
    }
}

/// The values of the columns of a list.
pub open spec fn values_of(cols: Cols) -> Seq<ValuesView> {
    Seq::new(cols.len(), |i: int| cols[i].values)
}

/// The name of the single column of an expression that is neither a sum, a
/// group term, an interaction, a product nor a variable.
pub open spec fn fallback_name(e: ExprView) -> Text {
    match e {
        ExprView::Num(n) => "constant_"@ + n,
        ExprView::Intercept(b) => if b {
            "intercept"@
        } else {
            "zero"@
        },
        ExprView::Func { name, args } => name,
        ExprView::Smooth { kind, vars, args } => smooth_kind_text(kind) + "_"@ + join(vars, "_"@),
        _ => "expr"@,
    }
}

/// The product of two columns, named `left_x_right`.
pub open spec fn product_column(a: DesignColumnView, b: DesignColumnView) -> DesignColumnView {
    column(a.name + "_x_"@ + b.name, ValuesView::Product(seq![a.values, b.values]))
}

/// The products of one column with every column of a list.
pub open spec fn crossed_with(a: DesignColumnView, b: Cols) -> Cols {
    Seq::new(b.len(), |j: int| product_column(a, b[j]))
}

/// The products of each of the first `n` columns of `a` with every column of
/// `b`, those of the first column of `a` first.
pub open spec fn crossed(a: Cols, b: Cols, n: nat) -> Cols
    decreases n,
{
    if n == 0 || n > a.len() {
        Seq::empty()
    } else {
        crossed(a, b, (n - 1) as nat) + crossed_with(a[n - 1], b)
    }
}

/// The products of one column of each of the first `n` sets, the sets crossed
/// from left to right; none for no set.
pub open spec fn cross_all(sets: Seq<Cols>, n: nat) -> Cols
    decreases n,
{
    if n == 0 || n > sets.len() {
        Seq::empty()
    } else if n == 1 {
        sets[0]
    } else {
        {
            let left = cross_all(sets, (n - 1) as nat);
            crossed(left, sets[n - 1], left.len())
        }
    }
}

/// The columns of a group term: for a random intercept `(1|g)` one indicator
/// for each level of `g`, named `ri(g=level)`; for a random slope
/// `(0 + v|g)` the variable `v` masked by each level of `g`, named
/// `rs(v|g=level)`; none for every other inner expression and for a grouping
/// that is a call.
pub open spec fn group_columns(t: TableView, inner: ExprView, spec: GroupSpecView) -> Result<
    Cols,
    Text,
> {
    match spec {
        GroupSpecView::Func { name, args } => Ok(Seq::empty()),
        GroupSpecView::Expr(chain) => if chain.len() == 0 {
            Ok(Seq::empty())
        } else {
            let g = chain[0].0;
            match find_column(t, g) {
                None => Err(missing_group(g)),
                Some(c) => if c.kind == ColumnKind::Other {
                    Err("Group variable must be string or numeric"@)
                } else {
                    match inner {
                        ExprView::Intercept(b) => if b {
                            Ok(intercept_columns(g, c.levels))
                        } else {
                            Ok(Seq::empty())
                        },
                        ExprView::Sum(ts) => if ts.len() == 2 && ts[0] == ExprView::Intercept(
                            false,
                        ) && ts[1] is Var {
                            let v = ts[1]->Var_0;
                            match find_column(t, v) {
                                None => Err(missing_variable(v)),
                                Some(sc) => if c.levels.len() > 0 && sc.kind != ColumnKind::Float
                                    && sc.kind != ColumnKind::Int {
                                    Err("Variable column must be numeric (i64 or f64)"@)
                                } else {
                                    Ok(slope_columns(v, g, c.levels))
                                },
                            }
                        } else {
                            Ok(Seq::empty())
                        },
                        _ => Ok(Seq::empty()),
                    }
                },
            }
        },
    }
}

pub open spec fn intercept_columns(g: Text, levels: Seq<Text>) -> Cols {
    Seq::new(
        levels.len(),
        |i: int|
            column(
                "ri("@ + g + "="@ + levels[i] + ")"@,
                ValuesView::Indicator { column: g, level: levels[i] },
            ),
    )
}

pub open spec fn slope_columns(v: Text, g: Text, levels: Seq<Text>) -> Cols {
    Seq::new(
        levels.len(),
        |i: int|
            column(
                "rs("@ + v + "|"@ + g + "="@ + levels[i] + ")"@,
                ValuesView::Masked { value: v, column: g, level: levels[i] },
            ),
    )
}

/// The fixed-effect columns and the random-effect columns of an expression.
///
/// A sum gives the columns of its terms, one after the other. A group term
/// gives random-effect columns only. An interaction gives the products of one
/// fixed-effect column of each factor. The term `-1` gives nothing, `-t` the
/// columns of `t`. `poly` gives its polynomial columns. A categorical
/// variable gives its contrast columns, every other variable itself. Every
/// other expression gives its single column.
pub open spec fn columns_of(t: TableView, e: ExprView) -> Result<(Cols, Cols), Text>
    decreases e, 0nat,
{
    match e {
        ExprView::Sum(ts) => columns_each(t, ts, ts.len()),
        ExprView::Prod(ts) => columns_each(t, ts, ts.len()),
        ExprView::Group { inner, spec, kind, id } => match group_columns(t, *inner, spec) {
            Ok(cols) => Ok((Seq::empty(), cols)),
            Err(m) => Err(m),
        },
        ExprView::Interaction(ts) => match factor_sets(t, ts, ts.len()) {
            Ok(sets) => Ok((cross_all(sets, sets.len()), Seq::empty())),
            Err(m) => Err(m),
        },
        ExprView::Func { name, args } => if name == "NEG"@ {
            if args.len() != 1 {
                Err("NEG function with wrong number of arguments"@)
            } else if is_one(args[0]) {
                Ok((Seq::empty(), Seq::empty()))
            } else {
                columns_of(t, args[0])
            }
        } else if name == "poly"@ {
            match poly_columns(t, args) {
                Ok(cols) => Ok((cols, Seq::empty())),
                Err(m) => Err(m),
            }
        } else {
            single_column(t, e)
        },
        ExprView::Var(name) => match find_column(t, name) {
            Some(c) => if c.kind == ColumnKind::Str {
                Ok((contrast_columns(c, name), Seq::empty()))
            } else {
                Ok((seq![plain_column(name)], Seq::empty()))
            },
            None => Err(missing_column(name)),
        },
        _ => single_column(t, e),
    }
}

/// The single column of an expression under its fallback name, as the only
/// fixed-effect column.
pub open spec fn single_column(t: TableView, e: ExprView) -> Result<(Cols, Cols), Text>
    decreases e, 1nat,
{
    match series_of(t, e) {
        Ok(c) => Ok((seq![column(fallback_name(e), c.values)], Seq::empty())),
        Err(m) => Err(m),
    }
}

/// The columns of the first `n` expressions of a list, one after the other.
pub open spec fn columns_each(t: TableView, ts: Seq<ExprView>, n: nat) -> Result<(Cols, Cols), Text>
    decreases ts, n,
{
    if n == 0 || n > ts.len() {
        Ok((Seq::empty(), Seq::empty()))
    } else {
        match columns_each(t, ts, (n - 1) as nat) {
            Ok(init) => match columns_of(t, ts[n - 1]) {
                Ok(last) => Ok((init.0 + last.0, init.1 + last.1)),
                Err(m) => Err(m),
            },
            Err(m) => Err(m),
        }
    }
}

/// The fixed-effect columns of each of the first `n` factors of an
/// interaction.
pub open spec fn factor_sets(t: TableView, ts: Seq<ExprView>, n: nat) -> Result<Seq<Cols>, Text>
    decreases ts, n,
{
    if n == 0 || n > ts.len() {
        Ok(Seq::empty())
    } else {
        match factor_sets(t, ts, (n - 1) as nat) {
            Ok(init) => match columns_of(t, ts[n - 1]) {
                Ok(last) => Ok(init.push(last.0)),
                Err(m) => Err(m),
            },
            Err(m) => Err(m),
        }
    }
}

/// The column of a response: a variable as it is, a binomial response as its
/// successes, a multiple response as its first variable, a survival response
/// as its time, a call as its first argument.
pub open spec fn response_columns(t: TableView, lhs: ResponseView) -> Result<Cols, Text> {
    match lhs {
        ResponseView::Var(name) => source_column(t, name),
        ResponseView::BinomialTrials { successes, trials } => match successes {
            ExprView::Var(name) => source_column(t, name),
            _ => Err("Binomial successes must be a variable name"@),
        },
        ResponseView::Multi(names) => if names.len() == 0 {
            Err("Empty multi-response specification"@)
        } else {
            source_column(t, names[0])
        },
        ResponseView::Surv { time, event, time2 } => match series_of(t, time) {
            Ok(c) => Ok(seq![c]),
            Err(m) => Err(m),
        },
        ResponseView::Func { name, args } => if args.len() == 0 {
            Err("Function response with no arguments"@)
        } else {
            match series_of(t, args[0]) {
                Ok(c) => Ok(seq![c]),
                Err(m) => Err(m),
            }
        },
    }
}

pub open spec fn source_column(t: TableView, name: Text) -> Result<Cols, Text> {
    match find_column(t, name) {
        Some(c) => Ok(seq![plain_column(name)]),
        None => Err(missing_column(name)),
    }
}

// ---------------------------------------------------------------------------
// Tables
// ---------------------------------------------------------------------------

/// How often the name at `i` occurs among the first `n` names.
pub open spec fn occurrences(names: Seq<Text>, i: int, n: nat) -> nat
    decreases n,
{
    if n == 0 || n > names.len() {
        0
    } else {
        occurrences(names, i, (n - 1) as nat) + if names[n - 1] == names[i] {
            1nat
        } else {
            0nat
        }
    }
}

/// The name at `i` made unique: as it is where it occurs for the first time,
/// else with `_k` behind it, `k` the number of its earlier occurrences.
pub open spec fn unique_name(names: Seq<Text>, i: int) -> Text {
    let before = occurrences(names, i, i as nat);
    if before == 0 {
        names[i]
    } else {
        names[i] + "_"@ + decimal(before)
    }
}

/// The name of column `i` of a design table: unique, and clean where that is
/// asked for.
pub open spec fn final_name(names: Seq<Text>, i: int, clean: bool) -> Text {
    if clean {
        clean_name(unique_name(names, i))
    } else {
        unique_name(names, i)
    }
}

pub open spec fn final_names(names: Seq<Text>, clean: bool) -> Seq<Text> {
    Seq::new(names.len(), |i: int| final_name(names, i, clean))
}

/// The index of the first name that stands earlier in the list too, or the
/// length of the list where all names differ. Names at or behind `n` are not
/// looked at.
pub open spec fn first_repeat(names: Seq<Text>, n: nat) -> int
    decreases n,
{
    if n == 0 || n > names.len() {
        names.len() as int
    } else {
        let before = first_repeat(names, (n - 1) as nat);
        if before < names.len() {
            before
        } else if exists|j: int| 0 <= j < n - 1 && #[trigger] names[j] == names[n - 1] {
            n - 1
        } else {
            names.len() as int
        }
    }
}

pub open spec fn renamed(cols: Cols, names: Seq<Text>) -> Cols {
    Seq::new(cols.len(), |i: int| column(names[i], cols[i].values))
}

/// The design table of a list of columns: none of the columns and no rows for
/// the empty list; else the columns under their final names and the rows of
/// the data. An error where two final names are the same.
pub open spec fn built(cols: Cols, clean: bool, height: nat) -> Result<DesignTableView, Text> {
    if cols.len() == 0 {
        Ok(DesignTableView { columns: Seq::empty(), rows: 0 })
    } else {
        let names = final_names(names_of(cols), clean);
        let r = first_repeat(names, names.len());
        if 0 <= r < names.len() {
            Err(duplicate_name(names[r]))
        } else {
            Ok(DesignTableView { columns: renamed(cols, names), rows: height })
        }
    }
}

/// The intercept column, all ones, where it is there.
pub open spec fn head_columns(intercept: bool, name: Text) -> Cols {
    if intercept {
        seq![column(name, ValuesView::Ones)]
    } else {
        Seq::empty()
    }
}

/// The design tables of the fixed effects and of the random effects of a
/// right-hand side; the fixed effects start with the intercept column where
/// there is one.
pub open spec fn rhs_tables(
    t: TableView,
    rhs: ExprView,
    intercept: bool,
    intercept_name: Text,
    clean: bool,
) -> Result<(DesignTableView, DesignTableView), Text> {
    match columns_of(t, rhs) {
        Err(e) => Err(e),
        Ok(xz) => match built(head_columns(intercept, intercept_name) + xz.0, clean, t.height) {
            Err(e) => Err(e),
            Ok(x) => match built(xz.1, clean, t.height) {
                Err(e) => Err(e),
                Ok(z) => Ok((x, z)),
            },
        },
    }
}

/// The three design tables of a formula: response, fixed effects and random
/// effects.
///
/// The fixed effects start with the intercept column where the options ask
/// for it and the right-hand side does not take it away. The response keeps
/// its name.
pub open spec fn formula_tables(
    t: TableView,
    f: crate::ast::FormulaView,
    intercept: bool,
    intercept_name: Text,
    clean: bool,
) -> Result<(DesignTableView, DesignTableView, DesignTableView), Text> {
    match response_columns(t, f.lhs) {
        Err(e) => Err(e),
        Ok(y) => match rhs_tables(
            t,
            f.rhs,
            intercept && !removes_intercept(f.rhs),
            intercept_name,
            clean,
        ) {
            Err(e) => Err(e),
            Ok(xz) => Ok((DesignTableView { columns: y, rows: t.height }, xz.0, xz.1)),
        },
    }
}

/// The three design tables of a model: those of its formula.
pub open spec fn materialized(
    t: TableView,
    m: ModelSpecView,
    intercept: bool,
    intercept_name: Text,
    clean: bool,
) -> Result<(DesignTableView, DesignTableView, DesignTableView), Text> {
    formula_tables(t, m.formula, intercept, intercept_name, clean)
}

/// The degree of a polynomial over a column of floating-point numbers must
/// be less than the number of distinct values of the column: `poly(x, d, ..)`
/// is an error that names the degree and that number where the degree is not
/// less, and gives as many columns as the degree says where it is.
pub proof fn poly_degree_bound(t: TableView, var: Text, d: ExprView, rest: Seq<ExprView>)
    requires
        (find_column(t, var) matches Some(c) && c.kind == ColumnKind::Float),
        degree_arg(d) is Some,
    ensures
        ({
            let args = seq![ExprView::Var(var), d] + rest;
            let call = ExprView::Func { name: "poly"@, args };
            let distinct = find_column(t, var)->0.levels.len();
            let degree = degree_arg(d)->0;
            &&& degree >= distinct ==> poly_columns(t, args) == Err::<Cols, Text>(
                degree_too_high(degree, distinct),
            ) && columns_of(t, call) == Err::<(Cols, Cols), Text>(
                degree_too_high(degree, distinct),
            )
            &&& degree < distinct ==> (poly_columns(t, args) matches Ok(cols) && cols.len()
                == degree && columns_of(t, call) == Ok::<(Cols, Cols), Text>(
                (cols, Seq::empty()),
            ))
        }),
{
    reveal_strlit("poly");
    reveal_strlit("NEG");
    let args = seq![ExprView::Var(var), d] + rest;
    assert(args[0] == ExprView::Var(var));
    assert(args[1] == d);
    assert("poly"@ != "NEG"@) by {
        assert("poly"@.len() != "NEG"@.len());
    }
}

/// In a valid table the bound on the degree of a polynomial is the number
/// of distinct values of its column, a missing value counted as one of them:
/// `poly(x, d, ..)` is an error where the degree is not less than that
/// number, and gives as many columns as the degree says where it is.
pub proof fn poly_degree_bound_in_valid_table(
    t: TableView,
    var: Text,
    d: ExprView,
    rest: Seq<ExprView>,
)
    requires
        valid_table(t),
        (find_column(t, var) matches Some(c) && c.kind == ColumnKind::Float),
        degree_arg(d) is Some,
    ensures
        ({
            let args = seq![ExprView::Var(var), d] + rest;
            let distinct = distinct_count(find_column(t, var)->0.values);
            let degree = degree_arg(d)->0;
            &&& degree >= distinct ==> poly_columns(t, args) == Err::<Cols, Text>(
                degree_too_high(degree, distinct),
            )
            &&& degree < distinct ==> (poly_columns(t, args) matches Ok(cols) && cols.len()
                == degree)
        }),
{
    poly_degree_bound(t, var, d, rest);
    let i = crate::table::column_index(t.columns, var, 0);
    assert(find_column(t, var) == Some(t.columns[i]));
    assert(valid_column(t.columns[i], t.height));
}

proof fn lemma_columns_each_prefix(t: TableView, ts: Seq<ExprView>, last: ExprView, n: nat)
    requires
        n <= ts.len(),
    ensures
        columns_each(t, ts.push(last), n) == columns_each(t, ts, n),
    decreases n,
{
    if n > 0 {
        lemma_columns_each_prefix(t, ts, last, (n - 1) as nat);
        assert(ts.push(last)[n - 1] == ts[n - 1]);
    }
}

/// The term `-1` takes the intercept away and gives no column: a sum with
/// `-1` at its end has, whatever the options say of the intercept, the design
/// tables that the sum without it has when no intercept is asked for.
pub proof fn minus_one_takes_the_intercept_away(
    t: TableView,
    lhs: ResponseView,
    aterms: Seq<crate::ast::AtermView>,
    ts: Seq<ExprView>,
    one: ExprView,
    intercept: bool,
    intercept_name: Text,
    clean: bool,
)
    requires
        is_one(one),
    ensures
        formula_tables(
            t,
            crate::ast::FormulaView {
                lhs,
                rhs: ExprView::Sum(
                    ts.push(ExprView::Func { name: "NEG"@, args: seq![one] }),
                ),
                aterms,
            },
            intercept,
            intercept_name,
            clean,
        ) == formula_tables(
            t,
            crate::ast::FormulaView { lhs, rhs: ExprView::Sum(ts), aterms },
            false,
            intercept_name,
            clean,
        ),
{
    let minus = ExprView::Func { name: "NEG"@, args: seq![one] };
    let all = ts.push(minus);
    assert(is_minus_one(minus));
    assert(has_minus_one(all)) by {
        assert(all[all.len() - 1] == minus);
    }
    lemma_columns_each_prefix(t, ts, minus, ts.len());
    assert(columns_of(t, minus) == Ok::<(Cols, Cols), Text>((Seq::empty(), Seq::empty())));
    assert(all.len() == ts.len() + 1);
    assert(all[all.len() - 1] == minus);
    assert(columns_each(t, all, (all.len() - 1) as nat) == columns_each(t, ts, ts.len()));
    match columns_each(t, ts, ts.len()) {
        Ok(init) => {
            assert(init.0 + Seq::<DesignColumnView>::empty() =~= init.0);
            assert(init.1 + Seq::<DesignColumnView>::empty() =~= init.1);
            assert(columns_each(t, all, all.len()) == Ok::<(Cols, Cols), Text>(
                (init.0, init.1),
            ));
        },
        Err(m) => {
            assert(columns_each(t, all, all.len()) == Err::<(Cols, Cols), Text>(m));
        },
    }
    assert(columns_each(t, all, all.len()) == columns_each(t, ts, ts.len()));
    assert(columns_of(t, ExprView::Sum(all)) == columns_of(t, ExprView::Sum(ts)));
}

} // verus!
