[package]
name = "bytehub"
version = "0.1.0"
edition = "2021"
publish = false

[dependencies]
crabgraph = "*"
hex = "*"
serde = { version = "*", features = ["derive"] }
serde_json = "*"
axum = "*"
tokio = { version = "*", features = ["macros", "rt-multi-thread", "net"] }
reqwest = { version = "*", default-features = false, features = ["json"] }
twilight-http = "*"
twilight-model = "*"
convex = "*"
maplit = "*"
dotenvy = "*"
tracing = "*"
tracing-subscriber = { version = "*", features = ["env-filter"] }
anyhow = "*"
async-trait = "*"
thiserror = "*"
