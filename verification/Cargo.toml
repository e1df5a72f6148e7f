[package]
name = "frontend"
version = "0.1.0"
edition = "2021"
publish = false

[dependencies]
ariadne = "0.4"
codespan-reporting = "0.11"
serde_json = "1"
