[package]
name = "nu_select"
version = "0.1.0"
edition = "2021"
publish = false

[dependencies]
futures = "0.3"
indexmap = "1"
nu-errors = "0.24"
nu-protocol = "0.24"
nu-source = "0.24"
nu-value-ext = "0.24"
num-bigint = "0.3"
