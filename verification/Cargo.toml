[package]
name = "starlark_completion"
version = "0.1.0"
edition = "2021"
publish = false

[dependencies]
lsp-types = "0.97.0"
starlark = "0.14.2"
starlark_syntax = "0.14.2"
