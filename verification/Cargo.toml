[package]
name = "git_util"
version = "0.1.0"
edition = "2021"
publish = false

[dependencies]
regex = "1"
napi = "2"
napi-derive = "2"
