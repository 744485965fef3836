[package]
name = "hprof_slurp"
version = "0.1.0"
edition = "2021"
publish = false

[dependencies]
crossbeam-channel = "0.5"
indicatif = "0.17"
indoc = "2"
log = "0.4"
rayon = "1"
