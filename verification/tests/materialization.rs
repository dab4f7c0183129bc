use polars_formula::ast::{Expr, MaterializeOptions, Response};
use polars_formula::canon::canonicalize as canonicalize_model;
use polars_formula::design::{DesignTable, Values};
use polars_formula::materialize::{has_intercept_removal, materialize as materialize_with};
use polars_formula::parser::parser;
use polars_formula::table::{Column, ColumnKind, Table};
use polars_formula::{canonicalize, materialize, Error};

// ---------------------------------------------------------------------------
// Data
// ---------------------------------------------------------------------------

fn distinct_sorted(data: &[f64]) -> Vec<f64> {
    let mut out: Vec<f64> = Vec::new();
    for v in data {
        if out.iter().any(|w| w == v) {
            continue;
        }
        let mut at = out.len();
        for (i, w) in out.iter().enumerate() {
            if v < w {
                at = i;
                break;
            }
        }
        out.insert(at, *v);
    }
    out
}

fn float_column(name: &str, data: &[f64]) -> Column {
    Column {
        name: name.to_string(),
        kind: ColumnKind::Float,
        values: data.iter().map(|v| Some(v.to_string())).collect(),
        levels: distinct_sorted(data).iter().map(|v| v.to_string()).collect(),
    }
}

fn text_column(name: &str, data: &[&str]) -> Column {
    let mut levels: Vec<String> = data.iter().map(|s| s.to_string()).collect();
    levels.sort();
    levels.dedup();
    Column {
        name: name.to_string(),
        kind: ColumnKind::Str,
        values: data.iter().map(|v| Some(v.to_string())).collect(),
        levels,
    }
}

fn table(columns: Vec<Column>) -> Table {
    let height = columns.first().map(|c| c.values.len()).unwrap_or(0);
    let t = Table { columns, height };
    assert!(t.is_valid());
    t
}

fn numbers(t: &Table, name: &str) -> Vec<f64> {
    t.column(name)
        .unwrap()
        .values
        .iter()
        .map(|v| v.as_ref().unwrap().parse::<f64>().unwrap())
        .collect()
}

fn orthogonal(x: &[f64], degree: usize) -> Vec<Vec<f64>> {
    let n = x.len();
    let mean = x.iter().sum::<f64>() / n as f64;
    let centered: Vec<f64> = x.iter().map(|v| v - mean).collect();
    let mut basis: Vec<Vec<f64>> = Vec::new();
    for i in 0..=degree {
        let mut q: Vec<f64> = centered.iter().map(|v| v.powi(i as i32)).collect();
        for prev in &basis {
            let dot: f64 = q.iter().zip(prev).map(|(a, b)| a * b).sum();
            let norm: f64 = prev.iter().map(|v| v * v).sum();
            if norm > 0.0 {
                for k in 0..n {
                    q[k] -= dot / norm * prev[k];
                }
            }
        }
        let scale = q.iter().map(|v| v * v).sum::<f64>().sqrt();
        if scale > 0.0 {
            for v in q.iter_mut() {
                *v /= scale;
            }
        }
        basis.push(q);
    }
    basis.remove(0);
    basis
}

fn eval(v: &Values, t: &Table) -> Vec<f64> {
    match v {
        Values::Ones => vec![1.0; t.height],
        Values::Zeros => vec![0.0; t.height],
        Values::Constant(n) => vec![n.parse::<f64>().unwrap(); t.height],
        Values::Column(c) => numbers(t, c),
        Values::Indicator { column, level } => t
            .column(column)
            .unwrap()
            .indicator(level)
            .iter()
            .map(|hit| if *hit { 1.0 } else { 0.0 })
            .collect(),
        Values::Masked { value, column, level } => {
            let hits = t.column(column).unwrap().indicator(level);
            numbers(t, value)
                .iter()
                .zip(hits)
                .map(|(x, hit)| if hit { *x } else { 0.0 })
                .collect()
        }
        Values::Power { column, exponent } => {
            numbers(t, column).iter().map(|x| x.powi(*exponent as i32)).collect()
        }
        Values::Orthogonal { column, degree, index } => {
            orthogonal(&numbers(t, column), *degree)[*index - 1].clone()
        }
        Values::Product(fs) => {
            let mut out = vec![1.0; t.height];
            for f in fs {
                for (o, x) in out.iter_mut().zip(eval(f, t)) {
                    *o *= x;
                }
            }
            out
        }
    }
}

fn names(t: &DesignTable) -> Vec<String> {
    t.get_column_names()
}

fn small() -> Table {
    table(vec![
        float_column("y", &[1.0, 2.0, 3.0, 4.0, 5.0]),
        float_column("x1", &[1.0, 2.0, 3.0, 4.0, 5.0]),
        float_column("x2", &[2.0, 3.0, 4.0, 5.0, 6.0]),
    ])
}

fn semantic(r: Result<(DesignTable, DesignTable, DesignTable), Error>) -> String {
    match r {
        Err(Error::Semantic(msg)) => msg,
        _ => panic!("Expected semantic error"),
    }
}

// ---------------------------------------------------------------------------
// Tables of the kinds of formula
// ---------------------------------------------------------------------------

#[test]
fn test_materialize_basic() {
    let df = table(vec![
        float_column("y", &[1.0, 2.0, 3.0]),
        float_column("x1", &[1.0, 2.0, 3.0]),
        float_column("x2", &[1.0, 2.0, 3.0]),
    ]);
    let spec = canonicalize("y ~ x1 + x2").expect("Failed to parse formula");
    let (y, x, z) = materialize(&spec, &df).expect("Failed to materialize formula");

    assert_eq!(y.width(), 1);
    assert_eq!(y.height(), 3);
    assert_eq!(x.width(), 3);
    assert_eq!(x.height(), 3);
    assert_eq!(z.width(), 0);
    assert_eq!(z.height(), 0);
}

#[test]
fn test_group_materialization() {
    let df = table(vec![
        float_column("y", &[1.0, 2.0, 3.0, 4.0]),
        float_column("x", &[1.0, 2.0, 3.0, 4.0]),
        text_column("group", &["A", "A", "B", "B"]),
    ]);
    let p = parser();

    let parsed1 = p.parse("y ~ (1|group)").unwrap();
    let canonicalized1 = canonicalize_model(&parsed1);
    let (_y, x, z) = materialize_with(&df, &canonicalized1, MaterializeOptions::default()).unwrap();
    assert_eq!(names(&x), vec!["intercept"]);
    assert_eq!(names(&z), vec!["ri_group_a", "ri_group_b"]);

    let parsed2 = p.parse("y ~ (x|group)").unwrap();
    let canonicalized2 = canonicalize_model(&parsed2);
    let (_y, x, z) = materialize_with(&df, &canonicalized2, MaterializeOptions::default()).unwrap();
    assert_eq!(x.width(), 1);
    assert_eq!(
        names(&z),
        vec!["ri_group_a", "ri_group_b", "rs_x_group_a", "rs_x_group_b"]
    );
    assert_eq!(eval(&z.columns[2].values, &df), vec![1.0, 2.0, 0.0, 0.0]);
    assert_eq!(eval(&z.columns[3].values, &df), vec![0.0, 0.0, 3.0, 4.0]);

    let parsed3 = p.parse("y ~ x + (x|group)").unwrap();
    let canonicalized3 = canonicalize_model(&parsed3);
    let (_y, x, z) = materialize_with(&df, &canonicalized3, MaterializeOptions::default()).unwrap();
    assert_eq!(names(&x), vec!["intercept", "x"]);
    assert_eq!(z.width(), 4);
    assert_eq!(z.height(), 4);
}

#[test]
fn test_current_broken_behaviors() {
    let df = table(vec![
        float_column("y", &[1.0, 2.0, 3.0, 4.0]),
        float_column("x1", &[1.0, 2.0, 3.0, 4.0]),
        float_column("x2", &[2.0, 3.0, 4.0, 5.0]),
        text_column("species", &["setosa", "versicolor", "virginica", "setosa"]),
    ]);
    let p = parser();

    let poly_spec = p.parse("y ~ poly(x1, 2)").unwrap();
    let poly_canon = canonicalize_model(&poly_spec);
    let (_, x_poly, _) = materialize_with(&df, &poly_canon, MaterializeOptions::default()).unwrap();
    assert_eq!(
        x_poly.width(),
        3,
        "poly() should return 3 columns (intercept + 2 polynomial terms)"
    );

    let interaction_spec = p.parse("y ~ x1:x2").unwrap();
    let interaction_canon = canonicalize_model(&interaction_spec);
    let (_, x_interaction, _) =
        materialize_with(&df, &interaction_canon, MaterializeOptions::default()).unwrap();
    assert_eq!(
        x_interaction.width(),
        2,
        "x1:x2 should return 2 columns (intercept + interaction)"
    );

    let cat_spec = p.parse("y ~ species").unwrap();
    let cat_canon = canonicalize_model(&cat_spec);
    let (_, x_cat, _) = materialize_with(&df, &cat_canon, MaterializeOptions::default()).unwrap();
    assert_eq!(
        x_cat.width(),
        3,
        "species should return 3 columns (intercept + 2 contrasts)"
    );
}

#[test]
fn test_what_should_work() {
    let df = table(vec![
        float_column("y", &[1.0, 2.0, 3.0, 4.0]),
        float_column("x1", &[1.0, 2.0, 3.0, 4.0]),
        float_column("x2", &[2.0, 3.0, 4.0, 5.0]),
    ]);
    let p = parser();

    let basic_spec = p.parse("y ~ x1 + x2").unwrap();
    let basic_canon = canonicalize_model(&basic_spec);
    let (y, x, z) = materialize_with(&df, &basic_canon, MaterializeOptions::default()).unwrap();
    assert_eq!(y.width(), 1, "Response should have 1 column");
    assert_eq!(
        x.width(),
        3,
        "Fixed effects should have 3 columns (intercept + x1 + x2)"
    );
    assert_eq!(z.width(), 0, "Random effects should be empty");

    let identity_spec = p.parse("y ~ I(x1)").unwrap();
    let identity_canon = canonicalize_model(&identity_spec);
    let (_, x_identity, _) =
        materialize_with(&df, &identity_canon, MaterializeOptions::default()).unwrap();
    assert_eq!(
        x_identity.width(),
        2,
        "I(x1) should have 2 columns (intercept + x1)"
    );
}

#[test]
fn sums_give_intercept_and_one_column_per_variable() {
    let df = small();
    let spec = canonicalize("y~x1+x2").unwrap();
    let (y, x, z) = materialize(&spec, &df).unwrap();
    assert_eq!(names(&y), vec!["y"]);
    assert_eq!(names(&x), vec!["intercept", "x1", "x2"]);
    assert_eq!(x.height(), 5);
    assert_eq!(eval(&x.columns[0].values, &df), vec![1.0; 5]);
    assert_eq!(eval(&x.columns[1].values, &df), vec![1.0, 2.0, 3.0, 4.0, 5.0]);
    assert_eq!(eval(&x.columns[2].values, &df), vec![2.0, 3.0, 4.0, 5.0, 6.0]);
    assert_eq!(z.width(), 0);
}

#[test]
fn interactions_multiply_their_factors() {
    let df = small();
    let spec = canonicalize("y~x1:x2").unwrap();
    let (_, x, _) = materialize(&spec, &df).unwrap();
    assert_eq!(names(&x), vec!["intercept", "x1_x_x2"]);
    let product = eval(&x.columns[1].values, &df);
    assert_eq!(product[0], 2.0);
    assert_eq!(product, vec![2.0, 6.0, 12.0, 20.0, 30.0]);
}

#[test]
fn orthogonal_polynomials_are_centered_and_orthogonal() {
    let df = table(vec![
        float_column("y", &[1.0, 4.0, 9.0, 16.0, 25.0]),
        float_column("x", &[1.0, 2.0, 3.0, 4.0, 5.0]),
    ]);
    let spec = canonicalize("y~poly(x,2)").unwrap();
    let (_, x, _) = materialize(&spec, &df).unwrap();
    assert_eq!(names(&x), vec!["intercept", "poly_x_1", "poly_x_2"]);
    let first = eval(&x.columns[1].values, &df);
    let second = eval(&x.columns[2].values, &df);
    assert!((first.iter().sum::<f64>() / 5.0).abs() < 1e-9);
    assert!((second.iter().sum::<f64>() / 5.0).abs() < 1e-9);
    let dot: f64 = first.iter().zip(&second).map(|(a, b)| a * b).sum();
    assert!(dot.abs() < 1e-9);
    let norm: f64 = first.iter().map(|v| v * v).sum();
    assert!((norm - 1.0).abs() < 1e-9);
}

#[test]
fn random_intercepts_mark_each_row_once() {
    let df = table(vec![
        float_column("y", &[1.0, 2.0, 3.0, 4.0]),
        text_column("group", &["A", "A", "B", "B"]),
    ]);
    let spec = canonicalize("y~(1|group)").unwrap();
    let opts = MaterializeOptions { clean_names: false, ..MaterializeOptions::default() };
    let (_, x, z) = materialize_with(&df, &spec, opts).unwrap();
    assert_eq!(names(&x), vec!["intercept"]);
    assert_eq!(names(&z), vec!["ri(group=A)", "ri(group=B)"]);
    let a = eval(&z.columns[0].values, &df);
    let b = eval(&z.columns[1].values, &df);
    assert_eq!(a, vec![1.0, 1.0, 0.0, 0.0]);
    assert_eq!(b, vec![0.0, 0.0, 1.0, 1.0]);
    for row in 0..4 {
        assert_eq!(a[row] + b[row], 1.0);
    }
}

#[test]
fn categorical_variables_are_treatment_coded() {
    let df = table(vec![
        float_column("y", &[1.0, 2.0, 3.0, 4.0]),
        text_column("species", &["versicolor", "setosa", "virginica", "setosa"]),
    ]);
    let spec = canonicalize("y~species").unwrap();
    let (_, x, _) = materialize(&spec, &df).unwrap();
    assert_eq!(names(&x), vec!["intercept", "species_versicolor", "species_virginica"]);
    assert_eq!(eval(&x.columns[1].values, &df), vec![1.0, 0.0, 0.0, 0.0]);
    assert_eq!(eval(&x.columns[2].values, &df), vec![0.0, 0.0, 1.0, 0.0]);
}

#[test]
fn minus_one_takes_the_intercept_away() {
    let df = small();
    let without = canonicalize("y~x1+x2-1").unwrap();
    let (_, x, _) = materialize(&without, &df).unwrap();
    let with = canonicalize("y~x1+x2").unwrap();
    let opts = MaterializeOptions { rhs_intercept: false, ..MaterializeOptions::default() };
    let (_, x_plain, _) = materialize_with(&df, &with, opts).unwrap();
    assert_eq!(x.width(), x_plain.width());
    assert_eq!(names(&x), vec!["x1", "x2"]);
    assert_eq!(x, x_plain);
    assert!(has_intercept_removal(&without.formula.rhs));
    assert!(!has_intercept_removal(&with.formula.rhs));
    assert!(has_intercept_removal(&Expr::Func {
        name: "NEG".to_string(),
        args: vec![Expr::Intercept(true)],
    }));
}

#[test]
fn poly_degree_must_be_less_than_distinct_values() {
    let df = table(vec![float_column(
        "x",
        &[1.0, 2.0, 3.0, 4.0, 5.0, 1.0, 2.0, 3.0, 4.0, 5.0],
    )]);
    for degree in 0..9 {
        let formula = format!("x ~ poly(x, {}) - 1", degree);
        let spec = canonicalize(&formula).unwrap();
        let result = materialize(&spec, &df);
        if degree >= 5 {
            let msg = semantic(result);
            assert!(msg.contains("'degree' must be less than number of unique points"));
            assert!(msg.contains(&format!("Got degree={}, unique points=5", degree)));
        } else {
            let (_, x, _) = result.unwrap();
            assert_eq!(x.width(), degree);
        }
    }
    let spec = canonicalize("x ~ poly(x, 5) - 1").unwrap();
    let e = materialize(&spec, &df).err().unwrap();
    assert_eq!(
        e.message(),
        "semantic error: 'degree' must be less than number of unique points. Got degree=5, unique points=5"
    );
}

#[test]
fn raw_polynomials_are_powers() {
    let df = small();
    let spec = canonicalize("y ~ poly(x1, 3, true) - 1").unwrap();
    let opts = MaterializeOptions { clean_names: false, ..MaterializeOptions::default() };
    let (_, x, _) = materialize_with(&df, &spec, opts).unwrap();
    assert_eq!(names(&x), vec!["x1", "x1_2", "x1_3"]);
    assert_eq!(eval(&x.columns[2].values, &df), vec![1.0, 8.0, 27.0, 64.0, 125.0]);
}

#[test]
fn errors_of_every_kind() {
    let df = table(vec![
        float_column("y", &[1.0, 2.0, 3.0]),
        float_column("x", &[1.0, 2.0, 3.0]),
        text_column("s", &["a", "a", "a"]),
        Column {
            name: "n".to_string(),
            kind: ColumnKind::Int,
            values: vec![Some("1".to_string()), Some("2".to_string()), Some("3".to_string())],
            levels: vec!["1".to_string(), "2".to_string(), "3".to_string()],
        },
        Column {
            name: "b".to_string(),
            kind: ColumnKind::Other,
            values: vec![Some("true".to_string()), None, Some("false".to_string())],
            levels: vec!["".to_string(), "false".to_string(), "true".to_string()],
        },
    ]);
    let fail = |formula: &str| semantic(materialize(&canonicalize(formula).unwrap(), &df));
    assert_eq!(fail("missing ~ x"), "Column 'missing' not found in DataFrame");
    assert_eq!(fail("y ~ missing"), "Column 'missing' not found in DataFrame");
    assert_eq!(fail("y ~ poly(x)"), "poly() requires at least 2 arguments");
    assert_eq!(fail("y ~ poly(1, 2)"), "First argument to poly() must be a variable name");
    assert_eq!(fail("y ~ poly(x, x)"), "Second argument to poly() must be a number");
    assert_eq!(fail("y ~ poly(z, 2)"), "Column 'z' not found in DataFrame");
    assert_eq!(
        fail("y ~ poly(n, 2)"),
        "Column 'n' cannot be converted to numeric for polynomial expansion"
    );
    assert_eq!(fail("y ~ (1|z)"), "Group variable 'z' not found");
    assert_eq!(fail("y ~ (1|b)"), "Group variable must be string or numeric");
    assert_eq!(fail("y ~ (z|s)"), "Variable 'z' not found");
    assert_eq!(fail("y ~ (s|s)"), "Variable column must be numeric (i64 or f64)");
    assert_eq!(fail("y ~ f()"), "Unknown function 'f' with no arguments");
    assert_eq!(fail("y ~ x^2"), "Unsupported expression type: x^2");
    assert_eq!(fail("y ~ true"), "Unsupported expression type: true");
    assert_eq!(fail("y ~ log(s)"), "Categorical variable 's' must have at least 2 levels, found 1");
    let spec = polars_formula::ast::ModelSpec {
        family: None,
        link: None,
        formula: polars_formula::ast::Formula {
            lhs: Response::Multi(vec![]),
            rhs: Expr::Var("x".to_string()),
            aterms: vec![],
        },
        dpars: vec![],
        autocor: vec![],
    };
    assert_eq!(semantic(materialize(&spec, &df)), "Empty multi-response specification");
    let mut spec = spec;
    spec.formula.lhs = Response::Var("y".to_string());
    spec.formula.rhs = Expr::Func { name: "NEG".to_string(), args: vec![] };
    assert_eq!(semantic(materialize(&spec, &df)), "NEG function with wrong number of arguments");
    spec.formula.rhs = Expr::Sum(vec![Expr::Var("x".to_string()), Expr::Var("X".to_string())]);
    let df2 = table(vec![
        float_column("y", &[1.0]),
        float_column("x", &[1.0]),
        float_column("X", &[1.0]),
    ]);
    assert_eq!(
        semantic(materialize(&spec, &df2)),
        "duplicate: column with name 'x' has more than one occurrence"
    );
}

#[test]
fn repeated_names_get_a_number() {
    let df = small();
    let spec = canonicalize("y ~ x1 + x1 + x1").unwrap();
    let opts = MaterializeOptions {
        rhs_intercept: true,
        intercept_name: "(Intercept)",
        clean_names: false,
    };
    let (_, x, _) = materialize_with(&df, &spec, opts).unwrap();
    assert_eq!(names(&x), vec!["(Intercept)", "x1", "x1_1", "x1_2"]);
}

#[test]
fn interactions_cross_every_column_of_every_factor() {
    let df = table(vec![
        float_column("y", &[1.0, 2.0, 3.0, 4.0]),
        float_column("x", &[1.0, 2.0, 3.0, 4.0]),
        text_column("a", &["p", "q", "r", "p"]),
        text_column("b", &["u", "v", "u", "w"]),
    ]);
    let opts = MaterializeOptions { clean_names: false, ..MaterializeOptions::default() };
    let spec = canonicalize("y ~ a:b - 1").unwrap();
    let (_, x, _) = materialize_with(&df, &spec, opts).unwrap();
    assert_eq!(names(&x), vec!["a_q_x_b_v", "a_q_x_b_w", "a_r_x_b_v", "a_r_x_b_w"]);
    assert_eq!(eval(&x.columns[0].values, &df), vec![0.0, 1.0, 0.0, 0.0]);
    let spec = canonicalize("y ~ a:x:b - 1").unwrap();
    let (_, x, _) = materialize_with(&df, &spec, opts).unwrap();
    assert_eq!(
        names(&x),
        vec![
            "a_q_x_x_x_b_v",
            "a_q_x_x_x_b_w",
            "a_r_x_x_x_b_v",
            "a_r_x_x_x_b_w",
        ]
    );
    assert_eq!(eval(&x.columns[0].values, &df), vec![0.0, 2.0, 0.0, 0.0]);
}

#[test]
fn columns_of_other_expressions() {
    let df = small();
    let opts = MaterializeOptions { clean_names: false, ..MaterializeOptions::default() };
    let spec = canonicalize("y ~ 2.50 + log(x1) + s(x2) - x1").unwrap();
    let (_, x, _) = materialize_with(&df, &spec, opts).unwrap();
    assert_eq!(names(&x), vec!["intercept", "constant_2.5", "log", "s_x2", "x1"]);
    assert_eq!(eval(&x.columns[1].values, &df), vec![2.5; 5]);
    assert_eq!(eval(&x.columns[2].values, &df), vec![1.0, 2.0, 3.0, 4.0, 5.0]);
}

#[test]
fn sorted_levels_are_distinct_and_rising() {
    let c = Column {
        name: "s".to_string(),
        kind: ColumnKind::Str,
        values: vec![
            Some("b".to_string()),
            None,
            Some("a".to_string()),
            Some("b".to_string()),
            Some("ab".to_string()),
            Some("".to_string()),
            Some("B".to_string()),
        ],
        levels: vec![],
    };
    assert_eq!(c.sorted_levels(), vec!["", "B", "a", "ab", "b"]);
    assert_eq!(
        c.indicator("b"),
        vec![true, false, false, true, false, false, false]
    );
}

#[test]
fn a_table_is_valid_when_the_levels_are_the_distinct_values() {
    let column = |values: Vec<Option<&str>>, levels: Vec<&str>| Column {
        name: "c".to_string(),
        kind: ColumnKind::Str,
        values: values.iter().map(|v| v.map(|s| s.to_string())).collect(),
        levels: levels.iter().map(|s| s.to_string()).collect(),
    };
    assert!(column(vec![], vec![]).is_valid(0));
    assert!(column(vec![Some("b"), Some("a"), Some("b")], vec!["a", "b"]).is_valid(3));
    assert!(column(vec![Some("b"), Some("a"), Some("b")], vec!["b", "a"]).is_valid(3));
    assert!(column(vec![Some("b"), None, Some("")], vec!["", "", "b"]).is_valid(3));
    assert!(column(vec![Some("b"), None], vec!["", "b"]).is_valid(2));
    // another height
    assert!(!column(vec![Some("b"), Some("a"), Some("b")], vec!["a", "b"]).is_valid(2));
    // a level that no row holds
    assert!(!column(vec![Some("b"), Some("b")], vec!["a"]).is_valid(2));
    // a value that is no level
    assert!(!column(vec![Some("b"), Some("a")], vec!["a", "a"]).is_valid(2));
    // a level twice
    assert!(!column(vec![Some("b"), Some("a")], vec!["a", "b", "a"]).is_valid(2));
    // no levels at all
    assert!(!column(vec![Some("b")], vec![]).is_valid(1));

    let good = Table {
        columns: vec![column(vec![Some("x")], vec!["x"]), column(vec![None], vec![""])],
        height: 1,
    };
    assert!(good.is_valid());
    let bad = Table {
        columns: vec![column(vec![Some("x")], vec!["x"]), column(vec![None, None], vec![""])],
        height: 1,
    };
    assert!(!bad.is_valid());
}
