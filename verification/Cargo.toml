[package]
name = "greem_build"
version = "0.1.0"
edition = "2021"
publish = false

[dependencies]
anyhow = "1"
derive_builder = "*"
glob = "0.3"
graphql-parser = "0.4"
rayon = "1"
thiserror = "1"
