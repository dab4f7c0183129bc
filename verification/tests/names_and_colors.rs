use polars_formula::color::{Color, ColorConfig};
use polars_formula::colored_pretty::ColoredPretty;
use polars_formula::floats::is_float;
use polars_formula::names::make_clean_names;
use polars_formula::parser::parser;
use polars_formula::pretty::pretty;
use polars_formula::simple_colored::SimpleColoredPretty;

#[test]
fn test_make_clean_names() {
    assert_eq!(make_clean_names("My Column"), "my_column");
    assert_eq!(make_clean_names("x1:x2"), "x1_x2");
    assert_eq!(make_clean_names("poly(x,2)^1"), "poly_x_2_1");

    assert_eq!(make_clean_names("poly(income,3)^2"), "poly_income_3_2");
    assert_eq!(make_clean_names("poly(age,2)^1"), "poly_age_2_1");

    assert_eq!(make_clean_names("treatment:dose"), "treatment_dose");
    assert_eq!(make_clean_names("(x1+x2):z"), "x1_x2_z");

    assert_eq!(make_clean_names("Column Name!"), "column_name");
    assert_eq!(make_clean_names("x@#$%"), "x");

    assert_eq!(make_clean_names(""), "column");
    assert_eq!(make_clean_names("___"), "column");
    assert_eq!(make_clean_names("   "), "column");
}

#[test]
fn clean_names_keep_letters_of_every_script() {
    assert_eq!(make_clean_names("Größe (cm)"), "größe_cm");
    assert_eq!(make_clean_names("a.b/c"), "a_b_c");
    assert_eq!(make_clean_names("a.b"), "a_b");
    assert_eq!(make_clean_names("what?; <this>"), "what_this");
    assert_eq!(make_clean_names("a_ b"), "a__b");
    assert_eq!(make_clean_names("\u{a0}x\t"), "x");
}

#[test]
fn texts_that_stand_for_floats() {
    let yes = ["1", "0", "1.5", "1.", ".5", "+1e5", "-2.5E-3", "inf", "-Infinity", "NaN", "1e+0"];
    let no = ["", ".", "e5", "1e", "x1", "1 ", "1_0", "+", "--1", "infinit", "1.5.2", "1e5.0"];
    for t in yes {
        let cs: Vec<char> = t.chars().collect();
        assert!(is_float(&cs), "{}", t);
        assert!(t.parse::<f64>().is_ok(), "{}", t);
    }
    for t in no {
        let cs: Vec<char> = t.chars().collect();
        assert!(!is_float(&cs), "{}", t);
        assert!(t.parse::<f64>().is_err(), "{}", t);
    }
}

#[test]
fn color_config_follows_its_arguments() {
    assert!(ColorConfig::new(true).enabled);
    assert!(!ColorConfig::new(false).enabled);
    assert!(!ColorConfig::disabled().enabled);
    assert!(ColorConfig::auto(false, true).enabled);
    assert!(!ColorConfig::auto(true, true).enabled);
    assert!(!ColorConfig::auto(false, false).enabled);
}

#[test]
fn a_printer_without_colors_leaves_text_as_it_is() {
    let c = Color::disabled();
    assert_eq!(c.formula("y ~ x1 + (1|g)"), "y ~ x1 + (1|g)");
    assert_eq!(c.response("y"), "y");
    assert_eq!(c.term("x"), "x");
    assert_eq!(c.operator("+"), "+");
    assert_eq!(c.color_token("x", true), "x");
    let c = Color::default(true, true);
    assert_eq!(c.number("1"), "1");
    let p = ColoredPretty::disabled();
    assert_eq!(p.formula("y ~ x1 + (1|g)"), "y ~ x1 + (1|g)");
    assert_eq!(p.group("("), "(");
    let p = ColoredPretty::default(false, false);
    assert_eq!(p.function("f"), "f");
    let s = SimpleColoredPretty::disabled();
    assert_eq!(s.predictor("x"), "x");
    assert_eq!(SimpleColoredPretty::default(true, false).operator("~"), "~");
}

#[test]
fn colors_of_the_true_color_printer() {
    let c = Color::new(ColorConfig::new(true));
    assert_eq!(c.response("y"), "\x1b[38;2;163;190;140my\x1b[39m");
    assert_eq!(c.term("x"), "\x1b[38;2;235;203;139mx\x1b[39m");
    assert_eq!(c.operator("~"), "\x1b[38;2;208;135;112m~\x1b[39m");
    assert_eq!(c.function("f"), c.term("f"));
    assert_eq!(c.group("g"), c.term("g"));
    assert_eq!(c.number("1"), c.term("1"));
    assert_eq!(c.color_token("1.5", true), c.term("1.5"));
    assert_eq!(c.color_token("+", true), c.operator("+"));
    assert_eq!(c.color_token("abc", true), c.response("abc"));
    assert_eq!(c.color_token("abc", false), c.term("abc"));
    assert_eq!(c.color_token("x1", true), c.term("x1"));
    assert_eq!(
        c.formula("y ~ x1 + f(z)"),
        format!(
            "{} {} {} {} {}{}{}{}",
            c.response("y"),
            c.operator("~"),
            c.term("x1"),
            c.operator("+"),
            c.term("f"),
            c.operator("("),
            c.term("z"),
            c.operator(")"),
        )
    );
}

#[test]
fn colors_of_the_basic_printer() {
    let p = ColoredPretty::new(ColorConfig::new(true));
    assert_eq!(p.response("y"), "\x1b[31my\x1b[39m");
    assert_eq!(p.operator("+"), "\x1b[33m+\x1b[39m");
    assert_eq!(p.function("f"), "\x1b[34mf\x1b[39m");
    assert_eq!(p.group("("), "\x1b[32m(\x1b[39m");
    assert_eq!(p.number("1"), "\x1b[35m1\x1b[39m");
    assert_eq!(p.color_token("x", false, true), p.group("x"));
    assert_eq!(p.color_token("x", true, false), p.number("x"));
    assert_eq!(p.color_token("2", false, false), p.number("2"));
    assert_eq!(p.color_token("x", false, false), p.response("x"));
    assert_eq!(p.color_token("x1", false, false), "x1");
    assert_eq!(
        p.formula("y ~ x1 + (1|(g))"),
        format!(
            "{} {} x1 {} {}{}({}){}",
            p.response("y"),
            p.operator("~"),
            p.operator("+"),
            p.group("("),
            p.group("1|"),
            p.group("g"),
            p.group(")"),
        )
    );
}

#[test]
fn colors_of_the_simple_printer() {
    let s = SimpleColoredPretty::new(true);
    assert_eq!(s.response("y"), "\x1b[31my\x1b[39m");
    assert_eq!(s.predictor("x"), "\x1b[34mx\x1b[39m");
    assert_eq!(s.operator("~"), "\x1b[33m~\x1b[39m");
    assert_eq!(s.function("f"), s.predictor("f"));
    assert_eq!(s.group("g"), s.predictor("g"));
    assert_eq!(s.number("1"), s.predictor("1"));
    assert_eq!(
        s.formula_simple_parse("y ~ x > (0)"),
        format!(
            "{} {} {} {} {}{}{}",
            s.response("y"),
            s.operator("~"),
            s.predictor("x"),
            s.predictor(">"),
            s.predictor("("),
            s.predictor("0"),
            s.predictor(")"),
        )
    );
}

#[test]
fn a_model_is_colored_part_by_part() {
    let s = SimpleColoredPretty::new(true);
    let spec = parser().parse("y ~ x + f(z, 2) + (1|g)").unwrap();
    let expected = format!(
        "{} {} {}{}{}{}{}{}{}{}{}{}{}{}g{}",
        s.response("y"),
        s.operator("~"),
        s.predictor("x"),
        s.operator(" + "),
        s.function("f"),
        s.operator("("),
        s.predictor("z"),
        s.operator(", "),
        s.number("2"),
        s.operator(")"),
        s.operator(" + "),
        s.group("("),
        s.number("1"),
        s.operator("|"),
        s.group(")"),
    );
    assert_eq!(s.pretty_model_spec(&spec), expected);
    assert_eq!(s.formula("y ~ x + f(z, 2) + (1|g)"), expected);
    assert_eq!(s.formula("y ~ x >"), s.formula_simple_parse("y ~ x >"));

    let plain = SimpleColoredPretty::disabled();
    assert_eq!(plain.pretty_model_spec(&spec), "y ~ x + f(z, 2) + (1|g)");
    assert_eq!(plain.formula("y  ~  x"), "y  ~  x");
    assert!(!plain.is_enabled());
    assert!(s.is_enabled());
}

#[test]
fn a_model_without_response_is_colored_with_an_empty_response() {
    let s = SimpleColoredPretty::new(true);
    let spec = parser().parse("a*b").unwrap();
    assert_eq!(
        s.pretty_model_spec(&spec),
        format!(
            "{} {} {}{}{}",
            s.response(""),
            s.operator("~"),
            s.predictor("a"),
            s.operator(" * "),
            s.predictor("b"),
        )
    );
}

#[test]
fn clean_names_of_ascii_text_are_lower_case_letters_digits_and_underscores() {
    let all: String = (0u8..128).map(|b| b as char).collect();
    let names = [
        all.as_str(),
        "Sepal.Length (cm)",
        "__a__",
        "a--b",
        "_",
        "",
        "!?",
        "X_1",
        "poly(x, 2)_1",
    ];
    for name in names {
        let clean = make_clean_names(name);
        assert!(!clean.is_empty());
        assert!(!clean.starts_with('_'), "{:?}", clean);
        assert!(!clean.ends_with('_'), "{:?}", clean);
        assert!(
            clean.chars().all(|c| c.is_ascii_lowercase() || c.is_ascii_digit() || c == '_'),
            "{:?}",
            clean
        );
    }
    assert_eq!(make_clean_names("Sepal.Length (cm)"), "sepal_length_cm");
    assert_eq!(make_clean_names("__a__"), "a");
    assert_eq!(make_clean_names("a--b"), "a_b");
    assert_eq!(make_clean_names("_"), "column");
    assert_eq!(make_clean_names("!?"), "column");
    assert_eq!(make_clean_names("poly(x, 2)_1"), "poly_x_2__1");
}

/// The text without every run from an escape character to the next `m`.
fn without_escapes(text: &str) -> String {
    let mut out = String::new();
    let mut inside = false;
    for c in text.chars() {
        if inside {
            inside = c != 'm';
        } else if c == '\x1b' {
            inside = true;
        } else {
            out.push(c);
        }
    }
    out
}

#[test]
fn coloring_token_by_token_leaves_the_text() {
    let texts = [
        "",
        "y ~ x1 + x2",
        "y ~ a*b + (1|g) - 1",
        "  y | se(s) ~ poly(x, 2)^3 : z ",
        "family=gaussian() y ~ s(x, k=10, bs=\"tp\")",
        "((( ~ ~ +",
        "m[39m m",
        "y\t~\nx",
    ];
    let rgb = Color::new(ColorConfig::new(true));
    let grouped = ColoredPretty::new(ColorConfig::new(true));
    let simple = SimpleColoredPretty::new(true);
    for text in texts {
        assert_eq!(without_escapes(&rgb.formula(text)), text);
        assert_eq!(without_escapes(&grouped.formula(text)), text);
        assert_eq!(without_escapes(&simple.formula_simple_parse(text)), text);
    }
    assert_ne!(rgb.formula("y ~ x"), "y ~ x");
    assert_ne!(grouped.formula("y ~ x"), "y ~ x");
    assert_ne!(simple.formula_simple_parse("y ~ x"), "y ~ x");
}

#[test]
fn a_colored_model_is_the_plain_text_in_colors() {
    let formulas = [
        "y ~ x1 + x2",
        "y ~ a*b + c/d + (a + b):c + (x^2)^3 + x^(a + b)",
        "y ~ (1|g) + (x||g) + (1|ID|g) + (0 + x|g1:g2/g3) + (x|f(g, 2))",
        "y ~ s(x, k=10, bs=\"tp\") + \"a\\\"b\" + true + 1.5 + .",
        "y | se(s), weights(w) | trunc(lb=0, ub=100) ~ x, family=gaussian(), link=logit",
        "Surv(time, status, time2) ~ x + sigma ~ z + ar(p=1)",
        "cbind(a, b) ~ x, family=mixture(gaussian(), student())",
        "log(y) ~ x, family=custom_family(\"k\", \"mu\"), link=probit(1)",
        "y | trials(n) ~ x",
    ];
    let s = SimpleColoredPretty::new(true);
    for f in formulas {
        let spec = parser().parse(f).unwrap();
        let colored = s.pretty_model_spec(&spec);
        assert_ne!(colored, pretty(&spec));
        assert_eq!(without_escapes(&colored), pretty(&spec), "{:?}", f);
    }
    let spec = parser().parse("y ~ x, family=gaussian(), link=logit").unwrap();
    assert_eq!(
        s.pretty_model_spec(&spec),
        format!(
            "{} {} {}{}family={}{}{}{}link={}",
            s.response("y"),
            s.operator("~"),
            s.predictor("x"),
            s.operator(", "),
            s.function("gaussian"),
            s.operator("("),
            s.operator(")"),
            s.operator(", "),
            s.predictor("logit"),
        )
    );
}
