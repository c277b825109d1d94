[package]
name = "twine"
version = "0.1.0"
edition = "2021"
publish = false

[dependencies]
axum = "=0.8.9"
color-eyre = "=0.6.5"
confique = "=0.3.1"
dotenvy = "=0.15.7"
eyre = "=0.6.14"
git2 = { version = "=0.20.4", default-features = false }
gix = { version = "=0.90.0", default-features = false, features = ["sha1"] }
hashbrown = { version = "=0.15.5", features = ["serde"] }
itertools = "=0.14.0"
moka = { version = "=0.12.16", features = ["future"] }
rocksdb = { version = "=0.25.0", default-features = false }
serde = { version = "=1.0.229", features = ["derive"] }
serde_json = "=1.0.154"
tokio = { version = "=1.54.1", features = ["full"] }
tracing = "=0.1.44"
tracing-subscriber = { version = "=0.3.23", features = ["env-filter"] }
utoipa = "=5.5.0"
utoipa-scalar = { version = "=0.3.0", features = ["axum"] }
