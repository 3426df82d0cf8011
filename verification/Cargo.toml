[package]
name = "codegraph-lsp"
version = "0.1.0"
edition = "2021"
publish = false

[dependencies]
regex = "1"
codegraph = "*"
codegraph-parser-api = "*"
serde = { version = "1", features = ["derive"] }
serde_json = "1"
tokio = { version = "1", features = ["full"] }
tower-lsp = "0.20"
clap = { version = "4", features = ["derive"] }
tracing = "0.1"
tracing-subscriber = { version = "0.3", features = ["env-filter"] }
