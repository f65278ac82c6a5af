[package]
name = "borderpatrol"
version = "0.1.0"
edition = "2021"
publish = false

[dependencies]
console = "0.15"
nn = "0.1"
rand = "0.8"
