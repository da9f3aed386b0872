[package]
name = "clap_autodoc"
version = "0.1.0"
edition = "2021"
publish = false

[dependencies]
heck = "=0.5.0"
indexmap = "=2.14.2"
tabled = "=0.22.0"
syn = "=2.0.119"
quote = "=1.0.47"
proc-macro2 = "=1.0.107"
darling = "=0.20.11"
lazy_static = "=1.5.1"
