[package]
name = "spec_tacular"
version = "0.1.0"
edition = "2021"
publish = false

[dependencies]
anyhow = "1"
clap = { version = "4", features = ["derive"] }
codespan-reporting = "0.11"
indexmap = "2"
mediatype = "0.19"
openapiv3 = "2"
serde_yaml = "0.9"
