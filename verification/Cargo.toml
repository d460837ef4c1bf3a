[package]
name = "inheritx_metrics"
version = "0.1.0"
edition = "2021"
publish = false

[dependencies]
prometheus = "0.13"
axum = "0.7"
tokio = { version = "1", features = ["macros", "rt-multi-thread", "net", "time"] }
once_cell = "1"
sqlx = { version = "0.8", default-features = false, features = ["postgres", "runtime-tokio"] }
dotenvy = "0.15"
tracing = "0.1"
