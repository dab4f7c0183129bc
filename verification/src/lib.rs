//! R-style model formulas: parsing, canonical form, pretty-printing and the
//! layout of design matrices.
//!
//! A formula such as `y ~ x1 * x2 + poly(x, 2) + (1|group)` is read into a
//! syntax tree, rewritten into a canonical form and laid out against the
//! columns of a table as the columns of three design tables.

pub mod ast;
pub mod canon;
pub mod color;
pub mod colored_pretty;
pub mod design;
pub mod flat;
pub mod floats;
pub mod formula;
pub mod grammar;
pub mod hoist;
pub mod layout;
pub mod levels;
pub mod lex;
pub mod materialize;
pub mod named;
pub mod named_canon;
pub mod named_model;
pub mod names;
pub mod normal;
pub mod paint;
pub mod parser;
pub mod pretty;
pub mod reading;
pub mod roundtrip;
pub mod series;
pub mod simple_colored;
pub mod stable;
pub mod styled;
pub mod subsets;
pub mod table;
pub mod text;
pub mod uncolored;

use crate::ast::{MaterializeOptions, ModelSpec};
use crate::canon::canon_model;
use crate::design::DesignTable;
use crate::layout::materialized;
use crate::materialize::tables_agree;
use crate::table::{valid_table, Table};
use crate::formula::model_at;
use crate::parser::{no_formula, parser};
use crate::text::{decimal, decimal_string};
use vstd::prelude::*;

verus! {

/// What can go wrong.
#[derive(Debug)]
pub enum Error {
    /// The text is no formula.
    Parse { pos: Option<usize>, msg: String },
    /// The formula cannot be laid out against the data.
    Semantic(String),
}

/// The text of an optional position: `None` or `Some(n)`.
pub open spec fn position_text(pos: Option<usize>) -> Seq<char> {
    match pos {
        Some(n) => "Some("@ + decimal(n as nat) + ")"@,
        None => "None"@,
    }
}

/// The text of an error.
pub open spec fn error_text(e: Error) -> Seq<char> {
    match e {
        Error::Parse { pos, msg } => "parse error at token "@ + position_text(pos) + ": "@ + msg@,
        Error::Semantic(msg) => "semantic error: "@ + msg@,
    }
}

impl Error {
    /// The error as one line of text.
    pub fn message(&self) -> (r: String)
        ensures
            r@ == error_text(*self),
    {
        match self {
            Error::Parse { pos, msg } => {
                let mut out = String::from_str("parse error at token ");
                match pos {
                    Some(n) => {
                        out.append("Some(");
                        let number = decimal_string(*n);
                        out.append(number.as_str());
                        out.append(")");
                    },
                    None => {
                        out.append("None");
                    },
                }
                out.append(": ");
                out.append(msg.as_str());
                out
            },
            Error::Semantic(msg) => {
                let mut out = String::from_str("semantic error: ");
                out.append(msg.as_str());
                out
            },
        }
    }
}

/// Reads a formula and gives its canonical form; a parse error without
/// position where the text is no formula.
pub fn canonicalize(formula: &str) -> (r: Result<ModelSpec, Error>)
    ensures
        match r {
            Ok(spec) => model_at(formula@) matches Some(m) && spec@ == canon_model(m)
                && crate::named_model::well_named_model(spec@),
            Err(e) => model_at(formula@) is None && e == (Error::Parse { pos: None, msg: e->msg })
                && e->msg@ == "Parse error: "@ + ("parse error: "@ + no_formula()),
        },
{
    match parser().parse(formula) {
        Ok(spec) => Ok(crate::canon::canonicalize(&spec)),
        Err(e) => {
            let mut msg = String::from_str("Parse error: ");
            let reason = e.message();
            msg.append(reason.as_str());
            Err(Error::Parse { pos: None, msg })
        },
    }
}

/// The three design tables of a model against a table, under the default
/// options: with an intercept column named `intercept`, and clean names.
pub fn materialize(spec: &ModelSpec, df: &Table) -> (r: Result<
    (DesignTable, DesignTable, DesignTable),
    Error,
>)
    requires
        valid_table(df@),
    ensures
        tables_agree(r, materialized(df@, spec@, true, "intercept"@, true)),
{
    let opts = MaterializeOptions { rhs_intercept: true, intercept_name: "intercept", clean_names: true };
    crate::materialize::materialize(df, spec, opts)
}

} // verus!
