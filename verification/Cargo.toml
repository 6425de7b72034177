[package]
name = "lfml"
version = "0.1.0"
edition = "2021"
publish = false

[dependencies]
proc-macro2 = "=1.0.107"
syn = { version = "=2.0.119", features = ["full"] }
quote = "=1.0.47"
lfml-html5 = "=0.1.0"
axum-core = "=0.5.6"
http = "=1.5.0"
