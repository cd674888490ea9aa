[package]
name = "tabletop_engine"
version = "0.1.0"
edition = "2021"
publish = false

[dependencies]
indexmap = "2"
rand = "0.8"
thiserror = "1"
