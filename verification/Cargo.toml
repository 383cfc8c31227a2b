[package]
name = "delegation_core"
version = "0.1.0"
edition = "2021"
publish = false

[dependencies]
elrond-wasm = "0.11"
elrond-wasm-derive = "0.11"
