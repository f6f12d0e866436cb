[package]
name = "regex_data_gen"
version = "0.1.0"
edition = "2021"
publish = false

[dependencies]
regex = "1"
regex-syntax = "0.8"
rand = "0.9"
rand_regex = "0.18"
csv = "1"
serde_json = "1"
quick-xml = "*"
thiserror = "1"
anyhow = "1"
clap = { version = "4", features = ["derive"] }
tokio = { version = "1", features = ["macros", "rt-multi-thread"] }
