[package]
name = "r_ecipe_s"
version = "0.1.0"
edition = "2021"
publish = false

[dependencies]
pulldown-cmark = "*"
axum = "*"
tokio = { version = "1", features = ["rt-multi-thread", "macros", "time"] }
sqlx = { version = "*", default-features = false, features = ["postgres", "runtime-tokio", "json", "migrate"] }
qdrant-client = { version = "*", default-features = false }
meilisearch-sdk = "*"
serde = { version = "1", features = ["derive"] }
serde_json = "1"
config = { version = "*", default-features = false, features = ["toml"] }
thiserror = "*"
tracing = "*"
tracing-subscriber = { version = "*", features = ["env-filter"] }
tower-http = { version = "*", features = ["fs", "trace"] }
