[package]
name = "generate_es_search_query"
version = "0.1.0"
edition = "2021"
publish = false

[dependencies]
serde_json = "1"
syn = "2"
quote = "1"
proc-macro2 = "1"
darling = "0.20"
