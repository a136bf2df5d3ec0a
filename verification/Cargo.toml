[package]
name = "testcontainers_rs"
version = "0.1.0"
edition = "2021"
publish = false

[dependencies]
async-trait = "0.1"
bollard = "0.13"
futures = "0.3"
log = "0.4"
thiserror = "1"
