[package]
name = "polars_formula"
version = "0.1.0"
edition = "2021"
publish = false

[dependencies]
owo-colors = "*"
chumsky = "0.9"
atty = "0.2"
thiserror = "*"
polars = { version = "*", default-features = false }
