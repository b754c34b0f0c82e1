[package]
name = "ui_test"
version = "0.1.0"
edition = "2021"
publish = false

[dependencies]
colored = "2"
crossbeam = "0.8"
pretty_assertions = "1.2"
regex = "1.5.5"
rustc_version = "0.4"
