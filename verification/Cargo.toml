[package]
name = "search_graph"
version = "0.1.0"
edition = "2021"
publish = false

[dependencies]

[dev-dependencies]
crossbeam-utils = "0.8"
