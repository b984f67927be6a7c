[package]
name = "facet-json-schema"
version = "0.1.0"
edition = "2021"
publish = false

[dependencies]
facet = "*"
facet-core = "*"
facet-json = "*"
