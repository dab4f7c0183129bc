use polars_formula::ast::Response;
use polars_formula::canon::canonicalize;
use polars_formula::parser::parser;
use polars_formula::pretty::pretty;
use polars_formula::roundtrip::reads_back_from_text;

/// A small generator of formula texts: every choice is drawn from a linear
/// congruential sequence, so each run makes the same texts.
struct Texts {
    state: u64,
}

impl Texts {
    fn below(&mut self, n: u64) -> u64 {
        self.state = self
            .state
            .wrapping_mul(6364136223846793005)
            .wrapping_add(1442695040888963407);
        (self.state >> 33) % n
    }

    fn pick(&mut self, words: &[&str]) -> String {
        words[self.below(words.len() as u64) as usize].to_string()
    }

    fn blank(&mut self) -> &'static str {
        if self.below(4) == 0 {
            " "
        } else {
            ""
        }
    }

    fn name(&mut self) -> String {
        self.pick(&[
            "x", "y1", "z_2", "a", "b", "g", "time", "sigma", "s", "I", "ar", "truex", "family",
            "link", "_u", "Surv", "nu", "bs",
        ])
    }

    fn number(&mut self) -> String {
        self.pick(&["0", "1", "2", "10", "1.5", "0.25", "3.0", "1.50", "100"])
    }

    fn string(&mut self) -> String {
        self.pick(&["\"tp\"", "\"\"", "\"a b\"", "\"a\\\"b\"", "\"c\\\\d\"", "\"+ ~ ,\""])
    }

    fn list(&mut self, depth: u32, least: u64) -> String {
        let n = least + self.below(3);
        let mut parts = Vec::new();
        for _ in 0..n {
            parts.push(self.expr(depth));
        }
        parts.join(if self.below(2) == 0 { ", " } else { "," })
    }

    fn named(&mut self, depth: u32, least: u64) -> String {
        let n = least + self.below(3);
        let mut parts = Vec::new();
        for _ in 0..n {
            let key = self.pick(&["k", "bs", "by", "p", "q", "m"]);
            let pad = self.blank();
            parts.push(format!("{}{}={}{}", key, pad, pad, self.expr(depth)));
        }
        parts.join(", ")
    }

    fn grouping(&mut self) -> String {
        match self.below(4) {
            0 => format!("{}:{}", self.name(), self.name()),
            1 => format!("{}/{}", self.name(), self.name()),
            2 => format!("gr({}, 2)", self.name()),
            _ => self.name(),
        }
    }

    fn atom(&mut self, depth: u32) -> String {
        let kinds = if depth == 0 { 5 } else { 11 };
        match self.below(kinds) {
            0 => self.name(),
            1 => self.number(),
            2 => self.pick(&["true", "false", "TRUE", "FALSE"]),
            3 => self.string(),
            4 => ".".to_string(),
            5 => format!("({})", self.expr(depth - 1)),
            6 => format!("I({})", self.expr(depth - 1)),
            7 => format!("{}({})", self.pick(&["f", "log", "np.log", "poly", "ar", "s"]), self.list(depth - 1, 0)),
            8 => {
                let kind = self.pick(&["s", "t2", "te", "ti"]);
                let vars = if self.below(2) == 0 { "x".to_string() } else { "x, z".to_string() };
                if self.below(2) == 0 {
                    format!("{}({})", kind, vars)
                } else {
                    format!("{}({}, {})", kind, vars, self.named(depth - 1, 1))
                }
            },
            9 => {
                let inner = self.expr(depth - 1);
                let bar = self.pick(&["|", "||", " | ", "|id|"]);
                format!("({}{}{})", inner, bar, self.grouping())
            },
            _ => format!("({})", self.expr(depth - 1)),
        }
    }

    fn pow(&mut self, depth: u32) -> String {
        let base = self.atom(depth);
        match self.below(6) {
            0 => format!("{}^{}", base, self.number()),
            1 if depth > 0 => format!("{}^({})", base, self.expr(depth - 1)),
            _ => base,
        }
    }

    fn joined(&mut self, depth: u32, level: u32) -> String {
        if level == 0 {
            return self.pow(depth);
        }
        let n = 1 + if self.below(4) == 0 { 1 + self.below(2) } else { 0 };
        let mut out = self.joined(depth, level - 1);
        for _ in 1..n {
            let op = match level {
                1 => ":".to_string(),
                2 => self.pick(&["/", " / ", "%in%", " %in% "]),
                3 => self.pick(&["*", " * "]),
                _ => self.pick(&[" + ", "+", " - ", "-"]),
            };
            out.push_str(&op);
            out.push_str(&self.joined(depth, level - 1));
        }
        out
    }

    fn expr(&mut self, depth: u32) -> String {
        let pad = self.blank();
        format!("{}{}{}", pad, self.joined(depth, 4), pad)
    }

    fn header(&mut self) -> String {
        let family = match self.below(4) {
            0 => "mixture(gaussian(), student(3))".to_string(),
            1 => "custom_family(\"k\", \"mu\", \"phi\")".to_string(),
            2 => format!("binomial({})", self.list(0, 0)),
            _ => "gaussian()".to_string(),
        };
        match self.below(3) {
            0 => format!("family={}, link=logit", family),
            1 => format!("family = {} , link = probit(1)", family),
            _ => format!("family={}", family),
        }
    }

    fn aterm(&mut self) -> String {
        match self.below(6) {
            0 => format!("se({})", self.expr(0)),
            1 => format!("weights({})", self.expr(1)),
            2 => format!("trials({})", self.name()),
            3 => self.pick(&["trunc()", "trunc(lb=0)", "trunc(ub = 1)", "trunc(lb=0, ub=x)"]),
            4 => self.pick(&["thres()", "thres(gr=g)", "mi()"]),
            _ => format!("vreal({})", self.list(0, 1)),
        }
    }

    fn response(&mut self) -> String {
        let base = match self.below(6) {
            0 => "cbind(a, b)".to_string(),
            1 => "mvbind(a, b, c)".to_string(),
            2 => "Surv(time, status)".to_string(),
            3 => "Surv(time, status, time2)".to_string(),
            4 => format!("log({})", self.name()),
            _ => self.name(),
        };
        let n = self.below(3);
        let mut out = base;
        for i in 0..n {
            out.push_str(if i == 0 || self.below(2) == 0 { " | " } else { ", " });
            out.push_str(&self.aterm());
        }
        out
    }

    fn model(&mut self) -> String {
        let mut out = String::new();
        if self.below(5) == 0 {
            out.push_str(&self.header());
            out.push(' ');
        }
        if self.below(6) != 0 {
            out.push_str(&self.response());
            out.push_str(&self.pick(&[" ~ ", "~"]));
        }
        let depth = self.below(3) as u32;
        out.push_str(&self.expr(depth));
        for _ in 0..self.below(3) {
            if self.below(2) == 0 {
                let name = self.pick(&["sigma", "nu", "phi", "zi", "hu", "bs"]);
                out.push_str(&format!(" + {} ~ {}", name, self.expr(1)));
            } else {
                let name = self.pick(&["ar", "ma", "arma", "cosy", "unstr", "sar", "car", "fcor"]);
                out.push_str(&format!(" + {}({})", name, self.named(0, 0)));
            }
        }
        if self.below(4) == 0 {
            out.push_str(", ");
            out.push_str(&self.header());
        }
        out
    }
}

fn shortest(mut failures: Vec<(String, String)>) -> String {
    failures.sort_by_key(|f| f.0.len());
    failures.truncate(4);
    failures
        .iter()
        .map(|(text, printed)| {
            let mut line = format!("{:?} is printed as {:?}", text, printed);
            line.truncate(500);
            line
        })
        .collect::<Vec<_>>()
        .join("\n")
}

#[test]
fn generated_formulas_read_back_from_their_text() {
    let mut texts = Texts { state: 20240229 };
    let mut read = 0;
    let mut failures = Vec::new();
    for _ in 0..3000 {
        let text = texts.model();
        if let Ok(spec) = parser().parse(&text) {
            read += 1;
            if !reads_back_from_text(&spec) {
                failures.push((text, pretty(&spec)));
            }
        }
    }
    assert!(failures.is_empty(), "{} texts do not read back:\n{}", failures.len(), shortest(failures));
    assert!(read > 1500, "only {} texts were read", read);
}

#[test]
fn generated_formulas_are_canonical_after_one_round() {
    let mut texts = Texts { state: 7 };
    let mut read = 0;
    let mut changed = Vec::new();
    let mut unread = Vec::new();
    for _ in 0..1500 {
        let text = texts.model();
        if let Ok(spec) = parser().parse(&text) {
            read += 1;
            let once = canonicalize(&spec);
            let twice = canonicalize(&once);
            if twice != once {
                changed.push((text.clone(), pretty(&once)));
            }
            // without a response nothing may follow the right-hand side, so
            // the terms that were taken out of it have no place in a text
            let placed = once.autocor.is_empty()
                || once.formula.lhs != Response::Var(String::new());
            if placed && !reads_back_from_text(&once) {
                unread.push((text, pretty(&once)));
            }
        }
    }
    assert!(changed.is_empty(), "{} change in a second round:\n{}", changed.len(), shortest(changed));
    assert!(unread.is_empty(), "{} do not read back:\n{}", unread.len(), shortest(unread));
    assert!(read > 700, "only {} texts were read", read);
}

#[test]
fn generated_formulas_stand_for_the_same_model_when_printed() {
    let mut other = Vec::new();
    let mut read = 0;
    for seed in 1..=4u64 {
        let mut texts = Texts { state: seed * 1000003 };
        for _ in 0..1500 {
            let text = texts.model();
            if let Ok(spec) = parser().parse(&text) {
                read += 1;
                let printed = pretty(&spec);
                match parser().parse(&printed) {
                    Ok(again) => {
                        if again != spec {
                            other.push((text, printed));
                        }
                    },
                    Err(_) => other.push((text, printed)),
                }
            }
        }
    }
    assert!(other.is_empty(), "{} of {} differ:\n{}", other.len(), read, shortest(other));
}
