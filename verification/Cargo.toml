[package]
name = "devenv_eval_cache"
version = "0.1.0"
edition = "2021"
publish = false

[dependencies]
futures = "0.3"
miette = "7"
sqlx = { version = "0.8", default-features = false }
thiserror = "2"
tokio = { version = "1", features = ["rt"] }
tracing = "0.1"
