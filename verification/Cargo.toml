[package]
name = "annotate_positive_snps"
version = "0.1.0"
edition = "2021"
publish = false

[dependencies]
regex = "1"
anyhow = "1"
which = "*"
clap = { version = "4", features = ["derive"] }
