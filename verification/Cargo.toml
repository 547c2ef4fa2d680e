[package]
name = "hir_ty"
version = "0.1.0"
edition = "2021"
publish = false

[dependencies]
la-arena = "0.3"
