[package]
name = "surql_definition"
version = "0.1.0"
edition = "2021"
publish = false

[dependencies]
proc-macro2 = "1"
quote = "1"
syn = "2"
surrealdb-core = { version = "=1.5.6", default-features = false }
