use polars_formula::ast::{
    Aterm, Expr, Family, GroupKind, GroupSpec, NestKind, Response, SmoothKind,
};
use polars_formula::parser::parser;
use polars_formula::roundtrip::reads_back_from_text;
use polars_formula::pretty::pretty;

fn var(name: &str) -> Expr {
    Expr::Var(name.to_string())
}

fn num(text: &str) -> Expr {
    Expr::Num(text.to_string())
}

fn rhs_of(formula: &str) -> Expr {
    parser().parse(formula).unwrap().formula.rhs
}

#[test]
fn debug_parser() {
    let p = parser();
    let result = p.parse("y ~ x");
    assert!(result.is_ok());
    let result = p.parse("y");
    let spec = result.unwrap();
    assert_eq!(spec.formula.lhs, Response::Var("".to_string()));
    assert_eq!(spec.formula.rhs, var("y"));
}

#[test]
fn debug_parser_issues() {
    let p = parser();
    assert!(p.parse("s(x, k=10, bs=\"tp\")").is_ok());
    assert!(p.parse("y | weights(w) ~ x").is_ok());
    assert!(p.parse("family=gaussian() y ~ x").is_ok());
    assert!(p.parse("Surv(time, status) ~ x").is_ok());
    assert!(p.parse("y ~ x1 + x2 | weights(w)").is_err());
    assert!(p.parse("y ~ x").is_ok());
    assert!(p.parse("y ~ I(x)").is_ok());
    assert!(p.parse("y ~ x^2").is_ok());
    assert!(p.parse("y ~ (1|group)").is_ok());
    assert!(p.parse("y ~ (1|recipe:replicate)").is_ok());
    assert!(p.parse("y ~ x + (1|group)").is_ok());
    assert!(p.parse("angle ~ recipe * temperature + (1 | recipe:replicate)").is_ok());
    assert!(p.parse("angle ~ recipe * temperature").is_ok());
    assert!(p.parse("angle ~ recipe + temperature").is_ok());
    assert!(p.parse("angle ~ (1 | recipe:replicate)").is_ok());
}

#[test]
fn test_basic_dsl_parsing() {
    let p = parser();
    let result = p.parse("y ~ x1 + x2");
    assert!(result.is_ok());

    let spec = result.unwrap();
    assert_eq!(spec.formula.lhs, Response::Var("y".to_string()));

    if let Expr::Sum(terms) = &spec.formula.rhs {
        assert_eq!(terms.len(), 2);
    } else {
        panic!("Expected Sum expression");
    }
}

#[test]
fn dsl_basic_test_test_interaction_parsing() {
    let p = parser();
    let result = p.parse("y ~ x1:x2");
    assert!(result.is_ok());

    let spec = result.unwrap();
    if let Expr::Interaction(terms) = &spec.formula.rhs {
        assert_eq!(terms.len(), 2);
    } else {
        panic!("Expected Interaction expression");
    }
}

#[test]
fn dsl_basic_test_test_pretty_printing() {
    let p = parser();
    let input = "y ~ x1 + x2";
    let spec = p.parse(input).unwrap();
    let output = pretty(&spec);
    assert!(output.contains("y"));
    assert!(output.contains("x1"));
    assert!(output.contains("x2"));
}

#[test]
fn dsl_basic_test_test_family_parsing() {
    let p = parser();
    let result = p.parse("y ~ x, family=gaussian()");
    assert!(result.is_ok());

    let spec = result.unwrap();
    assert!(spec.family.is_some());

    if let Some(Family::Builtin(name, args)) = &spec.family {
        assert_eq!(name, "gaussian");
        assert_eq!(args.len(), 0);
    } else {
        panic!("Expected Builtin family");
    }
}

#[test]
fn dsl_basic_test_test_survival_parsing() {
    let p = parser();
    let result = p.parse("y ~ x");
    assert!(result.is_ok());

    let spec = result.unwrap();
    assert_eq!(spec.formula.lhs, Response::Var("y".to_string()));
}

#[test]
fn dsl_tests_test_basic_formula_parsing() {
    let p = parser();
    let result = p.parse("y ~ x1 + x2");
    assert!(result.is_ok());

    let spec = result.unwrap();
    assert_eq!(spec.formula.lhs, Response::Var("y".to_string()));
    if let Expr::Sum(terms) = &spec.formula.rhs {
        assert_eq!(terms.len(), 2);
    } else {
        panic!("Expected Sum expression");
    }
}

#[test]
fn test_interactions_parsing() {
    let p = parser();
    assert!(p.parse("y ~ x1:x2").is_ok());
    assert!(p.parse("y ~ (x1 + x2):x3").is_ok());
    assert!(p.parse("y ~ x1*x2*x3").is_ok());
}

#[test]
fn test_powers_parsing() {
    let p = parser();
    assert!(p.parse("y ~ (a+b+c)^2").is_ok());
    assert!(p.parse("y ~ (a+b)^3").is_ok());
}

#[test]
fn dsl_tests_test_nesting_parsing() {
    let p = parser();
    assert!(p.parse("y ~ a/b").is_ok());
    assert!(p.parse("y ~ b %in% a").is_ok());
}

#[test]
fn test_groups_parsing() {
    let p = parser();
    let result = p.parse("y ~ (1|g) + (x||g) + (1|ID|g) + (1|g1+g2) + (1|g1:g2) + (1|g1/g2)");
    assert!(result.is_ok());

    let spec = result.unwrap();
    if let Expr::Sum(terms) = &spec.formula.rhs {
        assert_eq!(terms.len(), 6);

        if let Expr::Group { inner, kind, id, .. } = &terms[0] {
            assert!(matches!(**inner, Expr::Intercept(true)));
            assert!(matches!(kind, GroupKind::Correlated));
            assert!(id.is_none());
        } else {
            panic!("Expected Group expression");
        }

        if let Expr::Group { kind, .. } = &terms[1] {
            assert!(matches!(kind, GroupKind::Uncorrelated));
        } else {
            panic!("Expected Group expression");
        }

        if let Expr::Group { id, .. } = &terms[2] {
            assert_eq!(id, &Some("ID".to_string()));
        } else {
            panic!("Expected Group expression");
        }
    } else {
        panic!("Expected Sum expression");
    }
}

#[test]
fn dsl_tests_test_pretty_printing() {
    let p = parser();
    let spec = p.parse("y ~ x1 + x2").unwrap();
    let output = pretty(&spec);
    assert!(output.contains("y"));
    assert!(output.contains("x1"));
    assert!(output.contains("x2"));

    let spec = p.parse("y ~ x1:x2").unwrap();
    let output = pretty(&spec);
    assert!(output.contains("x1:x2"));
}

#[test]
fn test_canonicalization_identities() {
    let p = parser();
    let _a = p.parse("y ~ x*y").unwrap();
    let _b = p.parse("y ~ x + y + x:y").unwrap();
    let _a = p.parse("y ~ a/b").unwrap();
    let _b = p.parse("y ~ a + a:b").unwrap();
}

#[test]
fn expanded_parser_test_test_basic_formula_parsing() {
    let p = parser();
    let result = p.parse("y ~ x1 + x2");
    assert!(result.is_ok());

    let spec = result.unwrap();
    assert_eq!(spec.formula.lhs, Response::Var("y".to_string()));
    if let Expr::Sum(terms) = &spec.formula.rhs {
        assert_eq!(terms.len(), 2);
    } else {
        panic!("Expected Sum expression");
    }
}

#[test]
fn test_group_parsing() {
    let p = parser();
    let result = p.parse("y ~ x + (1|group)");
    assert!(result.is_ok());

    let spec = result.unwrap();
    if let Expr::Sum(terms) = &spec.formula.rhs {
        if let Expr::Group { inner, spec: _, kind, id } = &terms[1] {
            assert_eq!(*kind, GroupKind::Correlated);
            assert_eq!(*id, None);
            if let Expr::Intercept(true) = inner.as_ref() {
            } else {
                panic!("Expected intercept in group");
            }
        } else {
            panic!("Expected Group expression");
        }
    } else {
        panic!("Expected Sum expression");
    }
}

#[test]
fn test_aterm_parsing() {
    let p = parser();
    let result = p.parse("y | weights(w) ~ x");
    assert!(result.is_ok());

    let spec = result.unwrap();
    assert_eq!(spec.formula.aterms.len(), 1);
    if let Aterm::Weights(_) = &spec.formula.aterms[0] {
    } else {
        panic!("Expected Weights aterm");
    }
}

#[test]
fn expanded_parser_test_test_interaction_parsing() {
    let p = parser();
    let result = p.parse("y ~ x1:x2");
    assert!(result.is_ok());

    let spec = result.unwrap();
    if let Expr::Interaction(terms) = &spec.formula.rhs {
        assert_eq!(terms.len(), 2);
    } else {
        panic!("Expected Interaction expression");
    }
}

#[test]
fn test_power_parsing() {
    let p = parser();
    let result = p.parse("y ~ x^2");
    assert!(result.is_ok());

    let spec = result.unwrap();
    if let Expr::Pow { base: _, exp: _ } = &spec.formula.rhs {
    } else {
        panic!("Expected Pow expression");
    }
}

#[test]
fn expanded_parser_test_test_nesting_parsing() {
    let p = parser();
    let result = p.parse("y ~ a/b");
    assert!(result.is_ok());

    let spec = result.unwrap();
    if let Expr::Nest { outer: _, inner: _, kind } = &spec.formula.rhs {
        assert_eq!(*kind, NestKind::Slash);
    } else {
        panic!("Expected Nest expression");
    }
}

#[test]
fn test_simple_formula() {
    let p = parser();
    let result = p.parse("x1 + x2");
    assert!(result.is_ok());

    let spec = result.unwrap();
    assert_eq!(spec.formula.lhs, Response::Var("".to_string()));
    if let Expr::Sum(terms) = &spec.formula.rhs {
        assert_eq!(terms.len(), 2);
    } else {
        panic!("Expected Sum expression");
    }
}

#[test]
fn test_simple_interaction() {
    let p = parser();
    let result = p.parse("x1:x2");
    assert!(result.is_ok());

    let spec = result.unwrap();
    if let Expr::Interaction(terms) = &spec.formula.rhs {
        assert_eq!(terms.len(), 2);
    } else {
        panic!("Expected Interaction expression");
    }
}

#[test]
fn test_family_spec() {
    let p = parser();
    let result = p.parse("family=gaussian() x");
    assert!(result.is_ok());

    let spec = result.unwrap();
    assert!(spec.family.is_some());
    if let Some(Family::Builtin(name, args)) = &spec.family {
        assert_eq!(name, "gaussian");
        assert_eq!(args.len(), 0);
    } else {
        panic!("Expected Builtin family");
    }
}

#[test]
fn test_pretty_print() {
    let p = parser();
    let spec = p.parse("x1 + x2").unwrap();
    let output = pretty(&spec);
    assert!(output.contains("x1"));
    assert!(output.contains("x2"));
}

// ---------------------------------------------------------------------------
// The grammar in detail
// ---------------------------------------------------------------------------

#[test]
fn precedence_runs_from_sum_down_to_power() {
    assert_eq!(
        rhs_of("y ~ a + b*c:d^2"),
        Expr::Sum(vec![
            var("a"),
            Expr::Prod(vec![
                var("b"),
                Expr::Interaction(vec![
                    var("c"),
                    Expr::Pow { base: Box::new(var("d")), exp: Box::new(num("2")) },
                ]),
            ]),
        ])
    );
}

#[test]
fn minus_wraps_the_term_in_neg() {
    assert_eq!(
        rhs_of("y ~ x - 1"),
        Expr::Sum(vec![
            var("x"),
            Expr::Func { name: "NEG".to_string(), args: vec![Expr::Intercept(true)] },
        ])
    );
}

#[test]
fn nesting_reads_from_the_left() {
    assert_eq!(
        rhs_of("y ~ a/b/c"),
        Expr::Nest {
            outer: Box::new(Expr::Nest {
                outer: Box::new(var("a")),
                inner: Box::new(var("b")),
                kind: NestKind::Slash,
            }),
            inner: Box::new(var("c")),
            kind: NestKind::Slash,
        }
    );
    assert_eq!(
        rhs_of("y ~ b %in% a"),
        Expr::Nest {
            outer: Box::new(var("b")),
            inner: Box::new(var("a")),
            kind: NestKind::In,
        }
    );
}

#[test]
fn numbers_are_held_in_shortest_form() {
    assert_eq!(rhs_of("y ~ 1.50"), num("1.5"));
    assert_eq!(rhs_of("y ~ 2.0"), num("2"));
    assert_eq!(rhs_of("y ~ 0.25"), num("0.25"));
    assert_eq!(rhs_of("y ~ 10"), num("10"));
    assert_eq!(rhs_of("y ~ 0"), Expr::Intercept(false));
    assert_eq!(rhs_of("y ~ 1"), Expr::Intercept(true));
    assert_eq!(rhs_of("y ~ 1.0"), Expr::Intercept(true));
    assert!(parser().parse("y ~ 007").is_err());
}

#[test]
fn atoms_of_every_kind() {
    assert_eq!(rhs_of("y ~ true"), Expr::Bool(true));
    assert_eq!(rhs_of("y ~ truex"), var("truex"));
    assert_eq!(rhs_of("y ~ FALSE"), Expr::Bool(false));
    assert_eq!(rhs_of("y ~ \"a b\""), Expr::Str("a b".to_string()));
    assert_eq!(rhs_of("y ~ \"a\\\"b\""), Expr::Str("a\"b".to_string()));
    assert_eq!(rhs_of("y ~ ."), Expr::Dot);
    assert_eq!(rhs_of("y ~ (x)"), var("x"));
    assert_eq!(
        rhs_of("y ~ np.log(x, 2)"),
        Expr::Func { name: "np.log".to_string(), args: vec![var("x"), num("2")] }
    );
    assert_eq!(
        rhs_of("y ~ I(x)"),
        Expr::Func { name: "I".to_string(), args: vec![var("x")] }
    );
    assert_eq!(
        rhs_of("y ~ f()"),
        Expr::Func { name: "f".to_string(), args: vec![] }
    );
}

#[test]
fn smooths_take_variables() {
    let e = rhs_of("y ~ s(x)");
    if let Expr::Smooth { kind, vars, args } = &e {
        assert_eq!(pretty_kind(kind), "s");
        assert_eq!(vars, &vec!["x".to_string()]);
        assert!(args.is_empty());
    } else {
        panic!("Expected Smooth expression");
    }
    let e = rhs_of("y ~ t2(x,z)");
    if let Expr::Smooth { vars, .. } = &e {
        assert_eq!(vars, &vec!["x".to_string(), "z".to_string()]);
    } else {
        panic!("Expected Smooth expression");
    }
    assert_eq!(
        rhs_of("y ~ s(x + 1)"),
        Expr::Func {
            name: "s".to_string(),
            args: vec![Expr::Sum(vec![var("x"), Expr::Intercept(true)])],
        }
    );
}

fn pretty_kind(kind: &polars_formula::ast::SmoothKind) -> &'static str {
    match kind {
        polars_formula::ast::SmoothKind::S => "s",
        polars_formula::ast::SmoothKind::T2 => "t2",
        polars_formula::ast::SmoothKind::TE => "te",
        polars_formula::ast::SmoothKind::TI => "ti",
    }
}

#[test]
fn group_terms_in_three_forms() {
    let e = rhs_of("y ~ (1 | g1:g2/g3)");
    if let Expr::Group { inner, spec, kind, id } = &e {
        assert_eq!(**inner, Expr::Intercept(true));
        assert_eq!(*kind, GroupKind::Correlated);
        assert_eq!(*id, None);
        if let GroupSpec::Expr(chain) = spec {
            assert_eq!(chain.0.len(), 3);
            assert_eq!(chain.0[0].0, "g1");
            assert_eq!(chain.0[0].1, None);
            assert_eq!(chain.0[1].1, Some(polars_formula::ast::GroupOp::Cross));
            assert_eq!(chain.0[2].1, Some(polars_formula::ast::GroupOp::Nest));
        } else {
            panic!("Expected a chain of grouping variables");
        }
    } else {
        panic!("Expected Group expression");
    }
    let e = rhs_of("y ~ (0|g)");
    if let Expr::Group { inner, .. } = &e {
        assert_eq!(**inner, Expr::Intercept(false));
    } else {
        panic!("Expected Group expression");
    }
    let e = rhs_of("y ~ (0 + x | g)");
    if let Expr::Group { inner, .. } = &e {
        assert_eq!(**inner, Expr::Sum(vec![Expr::Intercept(false), var("x")]));
    } else {
        panic!("Expected Group expression");
    }
    let e = rhs_of("y ~ (x|subject|g)");
    if let Expr::Group { id, kind, .. } = &e {
        assert_eq!(*id, Some("subject".to_string()));
        assert_eq!(*kind, GroupKind::Correlated);
    } else {
        panic!("Expected Group expression");
    }
    assert!(parser().parse("y ~ (x|g").is_err());
    assert!(parser().parse("y ~ (x|a:b|g)").is_err());
}

#[test]
fn a_variable_with_trials_is_a_binomial_response() {
    let spec = parser().parse("y | trials(n) ~ x").unwrap();
    assert_eq!(
        spec.formula.lhs,
        Response::BinomialTrials { successes: var("y"), trials: var("n") }
    );
    assert!(spec.formula.aterms.is_empty());
    assert_eq!(pretty(&spec), "y | trials(n) ~ x");
}

#[test]
fn modifiers_are_separated_by_commas() {
    let spec = parser().parse("y | se(s),weights(w),trunc(lb=0,ub=100),thres(gr=g),mi() ~ x").unwrap();
    assert_eq!(spec.formula.aterms.len(), 5);
    assert_eq!(spec.formula.aterms[0], Aterm::Se(var("s")));
    assert_eq!(spec.formula.aterms[1], Aterm::Weights(var("w")));
    assert_eq!(
        spec.formula.aterms[2],
        Aterm::Trunc { lb: Some(Expr::Intercept(false)), ub: Some(num("100")) }
    );
    assert_eq!(spec.formula.aterms[3], Aterm::Thres { gr: Some(var("g")) });
    assert_eq!(spec.formula.aterms[4], Aterm::Mi);
    assert_eq!(
        pretty(&spec),
        "y | se(s) | weights(w) | trunc(lb=0, ub=100) | thres(gr=g) | mi() ~ x"
    );
}

#[test]
fn a_trailing_header_overrides_a_leading_one() {
    let spec = parser().parse("family=gaussian() x, family=binomial(),link=logit").unwrap();
    assert_eq!(spec.family, Some(Family::Builtin("binomial".to_string(), vec![])));
    assert_eq!(
        spec.link,
        Some(polars_formula::ast::Link::Named("logit".to_string(), vec![]))
    );
    assert_eq!(pretty(&spec), "x, family=binomial(), link=logit");
}

#[test]
fn texts_that_are_no_formula() {
    let p = parser();
    assert!(p.parse("").is_err());
    assert!(p.parse("y ~").is_err());
    assert!(p.parse("y ~ (x +").is_err());
    assert!(p.parse("y ~ x$y").is_err());
    assert!(p.parse("y | lb(0) ~ x").is_err());
    assert!(p.parse("~ x").is_err());
    assert!(p.parse("y ~ x > 0").is_err());
    assert!(p.parse("y ~ poly(x,)").is_err());
    assert!(p.parse("y | ~ x").is_err());
    assert!(p.parse("y ~ s(x,)").is_err());
    assert!(p.parse("y ~ x )").is_err());
    let message = p.parse("y ~").err().unwrap().message();
    assert!(message.starts_with("parse error: "));
}

#[test]
fn blanks_may_stand_between_the_parts() {
    let tight = parser().parse("y|se(s)~a*b:c^2+(x||g)+f(u,v),family=gaussian(),link=logit").unwrap();
    let loose = parser()
        .parse("  y | se( s ) ~ a * b : c ^ 2 + ( x || g ) + f( u , v ) , family = gaussian( ) , link = logit  ")
        .unwrap();
    assert_eq!(tight, loose);
    assert!(parser().parse("y ~ f (x)").is_err());
    assert!(parser().parse("y ~ 1 .5").is_err());
}

#[test]
fn dotted_names_strings_and_chains_of_modifiers() {
    let p = parser();
    assert!(p.parse("y ~ np.log(x) + stats.zscore(x)").is_ok());
    assert!(p.parse("y ~ s(x, bs=\"tp\")").is_ok());
    let spec = p.parse("y | weights(w) | se(se) | subset(m) ~ x").unwrap();
    assert_eq!(spec.formula.aterms.len(), 3);
    assert!(p.parse("y | trunc(lb = x > 0 ? 0 : -1) ~ x").is_err());
    assert!(p.parse("y ~ x > 0 && z < 10").is_err());
    assert!(p.parse("y ~ x > 0 ? 1 : 0").is_err());
    assert!(p.parse("y ~ (x > 0 && z < 10) || (a == b)").is_err());
}

#[test]
fn parameters_and_autocorrelation_follow_the_right_hand_side() {
    let spec =
        parser().parse("y ~ x + z + arma(p = 1, q = 2) + sigma ~ (1|g) + ar(p = 3)").unwrap();
    assert_eq!(spec.formula.rhs, Expr::Sum(vec![var("x"), var("z")]));
    assert_eq!(spec.dpars.len(), 1);
    assert_eq!(spec.dpars[0].name, "sigma");
    assert_eq!(spec.autocor.len(), 2);
    assert_eq!(spec.autocor[0].name, "arma");
    assert_eq!(
        spec.autocor[0].args,
        vec![("p".to_string(), Expr::Intercept(true)), ("q".to_string(), num("2"))]
    );
    assert_eq!(spec.autocor[1].name, "ar");
    assert_eq!(pretty(&spec), "y ~ x + z + sigma ~ (1|g) + arma(p=1, q=2) + ar(p=3)");
    // a call without named arguments is a term of the sum
    let spec = parser().parse("y ~ x + ar() + z + sigma ~ u + ar()").unwrap();
    assert_eq!(
        spec.formula.rhs,
        Expr::Sum(vec![
            var("x"),
            Expr::Func { name: "ar".to_string(), args: vec![] },
            var("z"),
        ])
    );
    assert_eq!(spec.dpars.len(), 1);
    assert!(spec.autocor.is_empty());
    assert_eq!(pretty(&spec), "y ~ x + ar() + z + sigma ~ u + ar()");
    assert!(parser().parse("y ~ f(x + ar() + z, ar()) + (x + ar()|g)").is_ok());
    assert!(parser().parse("y ~ f(x + ar(p = 1))").is_err());
    let spec = parser().parse("y ~ x + sigma + ar(1)").unwrap();
    assert_eq!(
        spec.formula.rhs,
        Expr::Sum(vec![
            var("x"),
            var("sigma"),
            Expr::Func { name: "ar".to_string(), args: vec![Expr::Intercept(true)] },
        ])
    );
    assert!(spec.dpars.is_empty());
    assert!(spec.autocor.is_empty());
}

#[test]
fn what_is_printed_reads_back_the_same() {
    let formulas = [
        "y ~ x1 + x2",
        "y ~ a*b + c/d",
        "y ~ (a + b):c",
        "y ~ (a + b)^2",
        "y ~ (x^2)^3 + x^(a + b) + (a:b)^(c)",
        "y ~ (a*b):c + (a/b):c + a/(b + c) + (a + b)/c",
        "y ~ x - 1",
        "y ~ x - (a + b)",
        "y ~ 1 + x",
        "y ~ poly(x, 2) + (1|g) + (x||g) + (1|ID|g) + (0 + x|g1:g2/g3) + (x|f(g, 2))",
        "y ~ ((1|g)|h)",
        "y ~ b %in% a",
        "y ~ s(x) + t2(x,z) + s(x, k=10, bs=\"tp\") + te(a, b, by = g)",
        "y ~ 1.50 + \"text\" + \"a\\\"b\\\\c\" + true + FALSE + .",
        "y ~ np.log(x) + f() + g(x, y)",
        "x1:x2",
        "family=gaussian() x",
        "x, family=gaussian(), link=logit",
        "y | trials(n) ~ x",
        "y | weights(w) ~ x",
        "y | se(s), weights(w) | trunc(lb=0, ub=100) | trunc(ub=1) | trunc() | thres() | thres(gr=g) | mi() | vreal(a, b) ~ x",
        "Surv(time, status) ~ x",
        "Surv(time, status, time2) ~ strata(g) + tt(x)",
        "cbind(a, b) ~ x",
        "mvbind(a, b, c) ~ x",
        "log(y) ~ x",
        "family=gaussian() y ~ x + ar(p=1) + sigma ~ z + ma(q=1)",
        "y ~ x + sigma ~ z + zi ~ w",
        "family=mixture(gaussian(), student()) y ~ x",
        "family=custom_family(\"kumaraswamy\",\"mu\",\"phi\") y ~ x",
        "family=custom_family(\"k\") y ~ x, family=binomial(\"logit\", 2), link=probit(1)",
        "y ~ truex + sigma + family + s + I + Surv",
        "family ~ link",
        "y ~ x - a:b - c*d",
        "y ~ a*b/c + (a*b)/c + a/b/c",
        "y ~ I(x^2) + I(a + b)",
        "y ~ x + (ar())",
        "y ~ (a + b) + c",
        "y ~ a %in% (b %in% c)",
        "y ~ a:(b:c) + a*(b*c)",
        "y ~ (a:b)^2 + (a/b)^2 + f(x)^2 + (x)^(2)",
        "y ~ ((a))",
        "y ~ (a + b | g) + ((x|g) + z | h)",
        "mvbind(a, b) ~ x",
        "y | trunc(lb = a + b, ub = f(c)) ~ x",
        "y ~ s(x, k = 1, k = 2) + te(a, b, bs = \"cr\", by = g, bs = \"tp\")",
        "y ~ x + ar(p = 1, p = 2, q = s(z, m = 1, m = 2))",
        "  y   ~   x1   +   x2   ,   family   =   gaussian( )  ",
    ];
    for f in formulas {
        let read = parser().parse(f);
        assert!(read.is_ok(), "{:?} is not read", f);
        let spec = read.unwrap();
        let first = pretty(&spec);
        let again = parser().parse(&first);
        assert!(again.is_ok(), "{:?} printed as {:?} does not read back", f, first);
        assert_eq!(pretty(&again.unwrap()), first, "{:?}", f);
    }
}

#[test]
fn what_is_printed_stands_for_the_same_model() {
    let formulas = [
        "y ~ x1 + x2",
        "y ~ a*b + c/d",
        "y ~ (x^2)^3 + x^(a + b)",
        "y ~ poly(x, 2) + (1|g) + (x||g) + (0 + x|g1:g2/g3) + (x|f(g, 2))",
        "y ~ s(x, k=10, bs=\"tp\") + \"a\\\"b\"",
        "y | se(s), weights(w) | trunc(ub=1) ~ x, family=gaussian(), link=logit",
        "Surv(time, status, time2) ~ x + sigma ~ z + ar(p=1)",
    ];
    for f in formulas {
        let spec = parser().parse(f).unwrap();
        let again = parser().parse(&pretty(&spec)).unwrap();
        assert_eq!(again, spec, "{:?}", f);
    }
}

// ---------------------------------------------------------------------------
// Formulas of every kind
// ---------------------------------------------------------------------------

fn has_key(args: &[(String, Expr)], key: &str) -> bool {
    args.iter().any(|(k, _)| k == key)
}

#[test]
fn test_aterms_parsing() {
    let p = parser();
    let result = p.parse("y | se(sey) | weights(w) | trunc(lb=0, ub=100) ~ x");
    assert!(result.is_ok());

    let spec = result.unwrap();
    assert_eq!(spec.formula.aterms.len(), 3);

    match &spec.formula.aterms[0] {
        Aterm::Se(_) => {}
        _ => panic!("Expected Se aterm"),
    }
    match &spec.formula.aterms[1] {
        Aterm::Weights(_) => {}
        _ => panic!("Expected Weights aterm"),
    }
    match &spec.formula.aterms[2] {
        Aterm::Trunc { lb, ub } => {
            assert!(lb.is_some());
            assert!(ub.is_some());
        }
        _ => panic!("Expected Trunc aterm"),
    }
}

#[test]
fn dsl_tests_test_survival_parsing() {
    let p = parser();
    let result = p.parse("Surv(time, status) ~ strata(g) + tt(x)");
    assert!(result.is_ok());

    let spec = result.unwrap();
    match &spec.formula.lhs {
        Response::Surv { time: _, event: _, time2 } => {
            assert!(time2.is_none());
        }
        _ => panic!("Expected Surv response"),
    }
}

#[test]
fn test_smooths_parsing() {
    let p = parser();
    let result = p.parse("y ~ s(x, k=10, bs=\"tp\") + t2(x,z, bs=\"cr\", by=g)");
    assert!(result.is_ok());

    let spec = result.unwrap();
    if let Expr::Sum(terms) = &spec.formula.rhs {
        assert_eq!(terms.len(), 2);

        if let Expr::Smooth { kind, vars, args } = &terms[0] {
            assert!(matches!(kind, SmoothKind::S));
            assert_eq!(vars, &["x"]);
            assert!(has_key(args, "k"));
            assert!(has_key(args, "bs"));
        } else {
            panic!("Expected Smooth expression");
        }

        if let Expr::Smooth { kind, vars, args } = &terms[1] {
            assert!(matches!(kind, SmoothKind::T2));
            assert_eq!(vars, &["x", "z"]);
            assert!(has_key(args, "bs"));
            assert!(has_key(args, "by"));
        } else {
            panic!("Expected Smooth expression");
        }
    } else {
        panic!("Expected Sum expression");
    }
}

#[test]
fn test_autocor_parsing() {
    let p = parser();
    let result = p.parse("y ~ x + ar(p=1)");
    assert!(result.is_ok());

    let result = p.parse("family=gaussian() y ~ x + ar(p=1) + sigma ~ z + ma(q=1)");
    assert!(result.is_ok());

    let spec = result.unwrap();
    assert!(spec.family.is_some());
    assert_eq!(spec.autocor.len(), 2);

    if let Some(autocor) = spec.autocor.first() {
        assert_eq!(autocor.name, "ar");
        assert!(has_key(&autocor.args, "p"));
    }
    if let Some(autocor) = spec.autocor.get(1) {
        assert_eq!(autocor.name, "ma");
        assert!(has_key(&autocor.args, "q"));
    }
}

#[test]
fn test_distributional_dpars_parsing() {
    let p = parser();
    let result = p.parse("y ~ x + sigma ~ z + zi ~ w");
    assert!(result.is_ok());

    let spec = result.unwrap();
    assert_eq!(spec.dpars.len(), 2);

    if let Some(dpar) = spec.dpars.first() {
        assert_eq!(dpar.name, "sigma");
    }
    if let Some(dpar) = spec.dpars.get(1) {
        assert_eq!(dpar.name, "zi");
    }
}

#[test]
fn test_families_parsing() {
    let p = parser();
    let result = p.parse("family=mixture(gaussian(), student()) y ~ x");
    assert!(result.is_ok());

    let spec = result.unwrap();
    if let Some(Family::Mixture(families)) = &spec.family {
        assert_eq!(families.len(), 2);
    } else {
        panic!("Expected Mixture family");
    }

    let result = p.parse("family=custom_family(\"kumaraswamy\",\"mu\",\"phi\") y ~ x");
    assert!(result.is_ok());

    let spec = result.unwrap();
    if let Some(Family::Custom { name, dpars }) = &spec.family {
        assert_eq!(name, "kumaraswamy");
        assert_eq!(dpars, &["mu", "phi"]);
    } else {
        panic!("Expected Custom family");
    }
}

#[test]
fn test_parsing_error_cases() {
    let p = parser();
    let result = p.parse("y ~ (x +");
    assert!(result.is_err());

    let result = p.parse("y ~ poly(x,)");
    assert!(result.is_err());

    let result = p.parse("y ~ x$y");
    assert!(result.is_err());

    let result = p.parse("y | lb(0) ~ x");
    assert!(result.is_err());

    let result = p.parse("~ x");
    assert!(result.is_err());
}

#[test]
fn test_complex_expressions() {
    let p = parser();
    let result = p.parse("y ~ (x1 + x2):(z1 + z2) + poly(x, 3) + s(x, k=10)");
    assert!(result.is_ok());

    let result = p.parse("y ~ x1:x2:x3 + a*b*c");
    assert!(result.is_ok());

    let result = p.parse("y ~ x1 + x2*x3 + x4:x5 + x6/x7");
    assert!(result.is_ok());
}

#[test]
fn test_smooth_parsing() {
    let p = parser();
    let result = p.parse("y ~ s(x, k=10, bs=\"tp\")");
    assert!(result.is_ok());

    let spec = result.unwrap();
    if let Expr::Smooth { kind, vars, args } = &spec.formula.rhs {
        assert_eq!(*kind, SmoothKind::S);
        assert_eq!(vars[0], "x");
        assert!(has_key(args, "k"));
        assert!(has_key(args, "bs"));
    } else {
        panic!("Expected Smooth expression");
    }
}

#[test]
fn expanded_parser_test_test_survival_parsing() {
    let p = parser();
    let result = p.parse("Surv(time, status) ~ x");
    assert!(result.is_ok());

    let spec = result.unwrap();
    match &spec.formula.lhs {
        Response::Surv { time: _, event: _, time2 } => {
            assert!(time2.is_none());
        }
        _ => panic!("Expected Surv response"),
    }
}

#[test]
fn expanded_parser_test_test_family_parsing() {
    let p = parser();
    let result = p.parse("family=gaussian() y ~ x");
    assert!(result.is_ok());

    let spec = result.unwrap();
    assert!(spec.family.is_some());

    if let Some(Family::Builtin(name, args)) = &spec.family {
        assert_eq!(name, "gaussian");
        assert_eq!(args.len(), 0);
    } else {
        panic!("Expected Builtin family");
    }
}

#[test]
fn test_complex_formula() {
    let p = parser();
    let result = p.parse("family=gaussian() y | weights(w) ~ x + s(z, k=5) + (1|group) + x:z");
    assert!(result.is_ok());

    let spec = result.unwrap();
    assert!(spec.family.is_some());
    assert!(!spec.formula.aterms.is_empty());

    if let Expr::Sum(terms) = &spec.formula.rhs {
        assert!(terms.len() >= 4);
    } else {
        panic!("Expected Sum expression with multiple terms");
    }
}

#[test]
fn named_arguments_hold_each_name_once() {
    let e = rhs_of("y ~ s(x, k = 1, bs = \"tp\", k = 2)");
    if let Expr::Smooth { args, .. } = &e {
        assert_eq!(
            *args,
            vec![
                ("k".to_string(), num("2")),
                ("bs".to_string(), Expr::Str("tp".to_string())),
            ]
        );
    } else {
        panic!("Expected Smooth expression");
    }
    let spec = parser().parse("y ~ x + ar(p = 1, q = 2, p = 3)").unwrap();
    assert_eq!(
        spec.autocor[0].args,
        vec![("p".to_string(), num("3")), ("q".to_string(), num("2"))]
    );
}

#[test]
fn models_read_back_from_their_text() {
    let formulas = [
        "y ~ x1 + x2",
        "y ~ a*b + (1|g) + s(x, k=10)",
        "y | weights(w) ~ x + sigma ~ z + ar(p=1), family=gaussian(), link=logit",
        "Surv(time, status) ~ strata(g) + \"a\\\"b\"",
    ];
    for f in formulas {
        assert!(reads_back_from_text(&parser().parse(f).unwrap()), "{:?}", f);
    }
    // a model that no text stands for: a variable whose name is no identifier
    let mut odd = parser().parse("y ~ x").unwrap();
    odd.formula.rhs = Expr::Var("a b".to_string());
    assert!(!reads_back_from_text(&odd));
}

#[test]
fn parentheses_stand_where_the_grammar_would_read_otherwise() {
    let cases = [
        ("y ~ a/(b + c)", "y ~ a / (b + c)"),
        ("y ~ (a + b)/c", "y ~ (a + b) / c"),
        ("y ~ (a/b)/c", "y ~ a / b / c"),
        ("y ~ a/(b/c)", "y ~ a / (b / c)"),
        ("y ~ a %in% (b*c)", "y ~ a %in% (b * c)"),
        ("y ~ (a*b):c", "y ~ (a * b):c"),
        ("y ~ a:(b:c)", "y ~ a:(b:c)"),
        ("y ~ (a:b):c", "y ~ (a:b):c"),
        ("y ~ a:b:c", "y ~ a:b:c"),
        ("y ~ (a + b) + c", "y ~ (a + b) + c"),
        ("y ~ a + (b + c)", "y ~ a + (b + c)"),
        ("y ~ a*(b*c)", "y ~ a * (b * c)"),
        ("y ~ a*b/c", "y ~ a * b / c"),
        ("y ~ (a*b)/c", "y ~ (a * b) / c"),
        ("y ~ (a:b)^2", "y ~ (a:b)^2"),
        ("y ~ (a/b)^2", "y ~ (a / b)^2"),
        ("y ~ (x^2)^3", "y ~ (x^2)^3"),
        ("y ~ x^(2)", "y ~ x^2"),
        ("y ~ x^(a)", "y ~ x^(a)"),
        ("y ~ ((a))", "y ~ a"),
        ("y ~ (a):(b)", "y ~ a:b"),
        ("y ~ a - (b + c)", "y ~ a + NEG(b + c)"),
    ];
    for (text, printed) in cases {
        let spec = parser().parse(text).unwrap();
        assert_eq!(pretty(&spec), printed, "{:?}", text);
        assert_eq!(parser().parse(printed).unwrap(), spec, "{:?}", text);
    }
}
