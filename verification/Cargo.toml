[package]
name = "eliminate"
version = "0.1.0"
edition = "2021"
publish = false

[dependencies]
rayon = "*"
swc_common = "*"
swc_ecma_ast = "*"
swc_ecma_codegen = "*"
swc_ecma_parser = "*"
swc_ecma_visit = "*"

[dev-dependencies]
tempfile = "*"
