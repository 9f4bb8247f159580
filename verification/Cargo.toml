[package]
name = "node_graph"
version = "0.1.0"
edition = "2021"
publish = false

[dependencies]
pest_meta = "*"
proc-macro2 = "*"
quote = "*"
