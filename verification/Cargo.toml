[package]
name = "leptos_mview_core"
version = "0.1.0"
edition = "2021"
publish = false

[dependencies]
proc-macro2 = "1"
proc-macro-error2 = "2"
quote = "1"
syn = { version = "2", features = ["full", "extra-traits"] }
