use polars_formula::ast::{Aterm, Autocor, Expr, GroupExpr, GroupKind, GroupSpec, NestKind, Response};
use polars_formula::canon::{canonicalize as canonicalize_model, canonicalize_expr};
use polars_formula::hoist::is_autocor_function;
use polars_formula::parser::parser;
use polars_formula::pretty::{pretty, pretty_expr};
use polars_formula::subsets::get_combinations;
use polars_formula::{canonicalize, Error};

fn var(name: &str) -> Expr {
    Expr::Var(name.to_string())
}

fn canonical_text(formula: &str) -> String {
    pretty(&canonicalize(formula).unwrap())
}

#[test]
fn test_canonicalize_basic() {
    let spec = canonicalize("y ~ x1 + x2").expect("Failed to parse formula");
    assert!(matches!(spec.formula.lhs, Response::Var(_)));
}

#[test]
fn test_canonicalize_star_expansion() {
    let result = canonicalize("y ~ a*b");
    assert!(result.is_ok());
    let spec = result.unwrap();
    let formula_str = format!("{:?}", spec);
    assert!(formula_str.contains("a"));
    assert!(formula_str.contains("b"));
    assert!(formula_str.contains("interaction") || formula_str.contains(":"));
    assert_eq!(pretty(&spec), "y ~ a + b + a:b");
}

#[test]
fn test_canonicalize_slash_expansion() {
    let result = canonicalize("y ~ a/b");
    assert!(result.is_ok());
    let spec = result.unwrap();
    let formula_str = format!("{:?}", spec);
    assert!(formula_str.contains("a"));
    assert!(formula_str.contains("interaction") || formula_str.contains(":"));
    assert_eq!(pretty(&spec), "y ~ a + a:b");
}

#[test]
fn test_canonicalize_nested_sums() {
    let result = canonicalize("y ~ (a + b) + c");
    assert!(result.is_ok());
    let spec = result.unwrap();
    let formula_str = format!("{:?}", spec);
    assert!(formula_str.contains("a"));
    assert!(formula_str.contains("b"));
    assert!(formula_str.contains("c"));
    assert_eq!(spec.formula.rhs, Expr::Sum(vec![var("a"), var("b"), var("c")]));
}

#[test]
fn test_canonicalize_interactions() {
    let result = canonicalize("y ~ (a:b):c");
    assert!(result.is_ok());
    let spec = result.unwrap();
    let formula_str = format!("{:?}", spec);
    assert!(formula_str.contains("a"));
    assert!(formula_str.contains("b"));
    assert!(formula_str.contains("c"));
    assert_eq!(spec.formula.rhs, Expr::Interaction(vec![var("a"), var("b"), var("c")]));
}

#[test]
fn test_canonicalize_complex_formula() {
    let result = canonicalize("y ~ a*b + c/d + (x + y)");
    assert!(result.is_ok());
    let spec = result.unwrap();
    let formula_str = format!("{:?}", spec);
    assert!(formula_str.contains("a"));
    assert!(formula_str.contains("b"));
    assert!(formula_str.contains("c"));
    assert!(formula_str.contains("d"));
    assert!(formula_str.contains("x"));
    assert!(formula_str.contains("y"));
    assert_eq!(pretty(&spec), "y ~ a + b + a:b + c + c:d + x + y");
    if let Expr::Sum(terms) = &spec.formula.rhs {
        assert_eq!(terms.len(), 7);
    } else {
        panic!("Expected Sum expression");
    }
}

#[test]
fn test_canonicalize_preserves_other_constructs() {
    let result = canonicalize("y ~ x^2 + I(y)");
    assert!(result.is_ok());
    let spec = result.unwrap();
    let formula_str = format!("{:?}", spec);
    assert!(formula_str.contains("x"));
    assert!(formula_str.contains("y"));
    assert_eq!(pretty(&spec), "y ~ x^2 + I(y)");
}

#[test]
fn test_canonicalize_roundtrip() {
    let input = "y ~ x1*x2 + z/w";
    let result = canonicalize(input);
    assert!(result.is_ok());
    assert_eq!(pretty(&result.unwrap()), "y ~ x1 + x2 + x1:x2 + z + z:w");
}

#[test]
fn test_canonicalize_identity_laws() {
    let xy = canonicalize("y ~ x*y").unwrap();
    let yx = canonicalize("y ~ y*x").unwrap();
    let xy_str = format!("{:?}", xy);
    let yx_str = format!("{:?}", yx);
    assert!(xy_str.contains("x") && xy_str.contains("y"));
    assert!(yx_str.contains("x") && yx_str.contains("y"));
    assert!(xy_str.contains("interaction") || xy_str.contains(":"));
    assert!(yx_str.contains("interaction") || yx_str.contains(":"));
}

#[test]
fn test_group_canonicalization() {
    let p = parser();

    let parsed1 = p.parse("y ~ (1|group)").unwrap();
    let pretty1 = pretty(&canonicalize_model(&parsed1));
    assert_eq!(pretty1, "y ~ (1|group)");

    let parsed2 = p.parse("y ~ (x|group)").unwrap();
    let pretty2 = pretty(&canonicalize_model(&parsed2));
    assert_eq!(pretty2, "y ~ (1|group) + (0 + x|group)");

    let parsed3 = p.parse("y ~ x + (x|group)").unwrap();
    let pretty3 = pretty(&canonicalize_model(&parsed3));
    assert_eq!(pretty3, "y ~ x + (1|group) + (0 + x|group)");

    let parsed4 = p.parse("Reaction ~ Days + (Days|Subject)").unwrap();
    let pretty4 = pretty(&canonicalize_model(&parsed4));
    assert_eq!(pretty4, "Reaction ~ Days + (1|Subject) + (0 + Days|Subject)");

    let parsed5 = p.parse("y ~ (x|group1:group2)").unwrap();
    let pretty5 = pretty(&canonicalize_model(&parsed5));
    assert_eq!(pretty5, "y ~ (1|group1:group2) + (0 + x|group1:group2)");
}

#[test]
fn star_equals_main_plus_interact() {
    let p = parser();
    let a = p.parse("y ~ x*y").unwrap();
    let b = p.parse("y ~ x + y + x:y").unwrap();
    assert_eq!(canonicalize_model(&a), canonicalize_model(&b));
}

#[test]
fn nesting_shorthand() {
    let p = parser();
    let a = p.parse("y ~ a/b").unwrap();
    let b = p.parse("y ~ a + a:b").unwrap();
    assert_eq!(canonicalize_model(&a), canonicalize_model(&b));
}

// ---------------------------------------------------------------------------
// The rewrite rules in detail
// ---------------------------------------------------------------------------

#[test]
fn a_product_of_three_gives_every_crossing() {
    assert_eq!(canonical_text("y ~ a*b*c"), "y ~ a + b + c + a:b + a:c + b:c + a:b:c");
}

#[test]
fn a_sum_in_a_product_keeps_its_parentheses_in_crossings() {
    assert_eq!(canonical_text("y ~ (a + b)*c"), "y ~ a + b + c + (a + b):c");
}

#[test]
fn degenerate_sums_products_and_interactions() {
    assert_eq!(canonicalize_expr(Expr::Prod(vec![])), Expr::Intercept(true));
    assert_eq!(canonicalize_expr(Expr::Prod(vec![var("a")])), var("a"));
    assert_eq!(canonicalize_expr(Expr::Sum(vec![])), Expr::Intercept(false));
    assert_eq!(canonicalize_expr(Expr::Sum(vec![var("a")])), var("a"));
    assert_eq!(canonicalize_expr(Expr::Interaction(vec![])), Expr::Intercept(true));
    assert_eq!(canonicalize_expr(Expr::Interaction(vec![var("a")])), var("a"));
}

#[test]
fn nesting_with_in_keeps_its_form() {
    let e = Expr::Nest {
        outer: Box::new(Expr::Prod(vec![var("a"), var("b")])),
        inner: Box::new(var("c")),
        kind: NestKind::In,
    };
    assert_eq!(pretty_expr(&canonicalize_expr(e)), "(a + b + a:b) %in% c");
}

#[test]
fn canonical_form_is_a_fixed_point() {
    let formulas = [
        "y ~ a*b*c + d/e",
        "y ~ (a*b):c + (x|g) + (a + b)^2",
        "y ~ x + (1|g) + poly(x, 2) - 1",
        "y ~ ((a + b) + (c + d)):e",
    ];
    for f in formulas {
        let once = canonicalize(f).unwrap();
        let twice = canonicalize_model(&once);
        assert_eq!(twice, once);
        assert_eq!(pretty(&twice), pretty(&once));
    }
}

#[test]
fn modifiers_keep_the_first_of_each_kind() {
    let spec = parser().parse("y | weights(a*b),se(s),weights(c) ~ x").unwrap();
    let canonical = canonicalize_model(&spec);
    assert_eq!(canonical.formula.aterms.len(), 2);
    assert_eq!(
        canonical.formula.aterms[0],
        Aterm::Weights(Expr::Sum(vec![
            var("a"),
            var("b"),
            Expr::Interaction(vec![var("a"), var("b")]),
        ]))
    );
    assert_eq!(canonical.formula.aterms[1], Aterm::Se(var("s")));
}

#[test]
fn autocorrelation_calls_are_hoisted() {
    let spec = canonicalize("y ~ x + ar(1, 2) + z").unwrap();
    assert_eq!(spec.formula.rhs, Expr::Sum(vec![var("x"), var("z")]));
    assert_eq!(
        spec.autocor,
        vec![Autocor {
            name: "ar".to_string(),
            args: vec![
                ("arg0".to_string(), Expr::Intercept(true)),
                ("arg1".to_string(), Expr::Num("2".to_string())),
            ],
        }]
    );
    assert_eq!(pretty(&spec), "y ~ x + z + ar(arg0=1, arg1=2)");

    let spec = canonicalize("y ~ x + ma(1)").unwrap();
    assert_eq!(spec.formula.rhs, var("x"));

    let spec = canonicalize("y ~ cosy(t):x").unwrap();
    assert_eq!(spec.formula.rhs, Expr::Interaction(vec![Expr::Intercept(true), var("x")]));
    assert_eq!(spec.autocor.len(), 1);

    let spec = canonicalize("y ~ log(car(g))").unwrap();
    assert_eq!(
        spec.formula.rhs,
        Expr::Func { name: "log".to_string(), args: vec![Expr::Intercept(true)] }
    );
    assert_eq!(spec.autocor[0].name, "car");
}

#[test]
fn names_of_autocorrelation_structures() {
    for name in ["ar", "ma", "arma", "cosy", "unstr", "sar", "car", "fcor"] {
        assert!(is_autocor_function(name));
    }
    assert!(!is_autocor_function("poly"));
    assert!(!is_autocor_function("AR"));
    assert!(!is_autocor_function(""));
}

#[test]
fn a_group_left_over_a_bare_variable_by_hoisting_is_expanded_at_once() {
    let once = canonicalize("y ~ (x + ar(1)|g)").unwrap();
    assert_eq!(pretty(&once), "y ~ (1|g) + (0 + x|g) + ar(arg0=1)");
    let twice = canonicalize_model(&once);
    assert_eq!(twice, once);
    assert_eq!(pretty(&twice), pretty(&once));
}

#[test]
fn intercept_normalization() {
    let p = parser();
    let a = p.parse("y ~ 1 + x - 1").unwrap();
    let b = p.parse("y ~ x - 1").unwrap();
    assert_eq!(canonicalize_model(&a), canonicalize_model(&b));
}

#[test]
fn canonicalizing_twice_changes_nothing() {
    let formulas = [
        "y ~ (x + ar(1)|g)",
        "y ~ (a:b + ar(1)):c",
        "y ~ 1 + x",
        "y ~ a*b*c + (a/b)*c + ((x|g) + ma(2))*z",
        "y | weights(a*b), se(c/d) ~ log(a*b + ar(1)) + sigma ~ a*b",
    ];
    for f in formulas {
        let once = canonicalize(f).unwrap();
        let twice = canonicalize_model(&once);
        assert_eq!(twice, once, "{:?}", f);
    }
}

#[test]
fn a_group_term_is_made_canonical_from_its_parts() {
    let e = polars_formula::canon::canonicalize_group_expr(
        Expr::Prod(vec![var("a"), var("b")]),
        GroupSpec::Expr(GroupExpr(vec![("g".to_string(), None)])),
        GroupKind::Correlated,
        None,
    );
    assert_eq!(pretty_expr(&e), "(a + b + a:b|g)");
}

#[test]
fn combinations_in_lexicographic_order() {
    assert_eq!(get_combinations(4, 2), vec![
        vec![0, 1], vec![0, 2], vec![0, 3], vec![1, 2], vec![1, 3], vec![2, 3],
    ]);
    assert_eq!(get_combinations(3, 3), vec![vec![0, 1, 2]]);
    assert_eq!(get_combinations(3, 1), vec![vec![0], vec![1], vec![2]]);
    assert!(get_combinations(3, 0).is_empty());
    assert!(get_combinations(3, 4).is_empty());
}

#[test]
fn a_text_that_is_no_formula_is_a_parse_error() {
    match canonicalize("y ~ x +") {
        Err(Error::Parse { pos, msg }) => {
            assert_eq!(pos, None);
            assert!(msg.starts_with("Parse error: "));
        }
        _ => panic!("Expected parse error"),
    }
    let e = canonicalize("y ~").err().unwrap();
    assert!(e.message().starts_with("parse error at token None: Parse error: "));
    assert_eq!(
        Error::Parse { pos: Some(12), msg: "m".to_string() }.message(),
        "parse error at token Some(12): m"
    );
    assert_eq!(Error::Semantic("m".to_string()).message(), "semantic error: m");
}

#[test]
fn group_terms_keep_kind_and_id() {
    let e = Expr::Group {
        inner: Box::new(var("x")),
        spec: GroupSpec::Expr(GroupExpr(vec![("g".to_string(), None)])),
        kind: GroupKind::Uncorrelated,
        id: Some("ID".to_string()),
    };
    assert_eq!(pretty_expr(&canonicalize_expr(e)), "(1|ID|g) + (0 + x|ID|g)");
}

#[test]
fn hoisted_arguments_get_distinct_names() {
    let spec = canonicalize("y ~ x + ar(1, 2, 3, 4, 5, 6, 7, 8, 9, 10, 11, 12)").unwrap();
    let names: Vec<&str> = spec.autocor[0].args.iter().map(|(k, _)| k.as_str()).collect();
    assert_eq!(
        names,
        vec![
            "arg0", "arg1", "arg2", "arg3", "arg4", "arg5", "arg6", "arg7", "arg8", "arg9",
            "arg10", "arg11"
        ]
    );
    for (i, a) in names.iter().enumerate() {
        for b in &names[i + 1..] {
            assert_ne!(a, b);
        }
    }
}
