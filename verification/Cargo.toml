[package]
name = "keyseq_macro"
version = "0.1.0"
edition = "2021"
publish = false

[dependencies]
proc-macro2 = "1"
quote = "1"
proc-macro-error = "1"
