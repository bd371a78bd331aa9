[package]
name = "mdpeek"
version = "0.1.0"
edition = "2021"
publish = false

[dependencies]
anyhow = "*"
axum = { version = "*", features = ["ws"] }
clap = { version = "*", features = ["derive"] }
futures = "*"
notify = "*"
notify-debouncer-mini = "*"
owo-colors = "*"
pulldown-cmark = "*"
tokio = { version = "*", features = ["full"] }
tower-http = { version = "*", features = ["fs"] }
tracing = "*"
tracing-subscriber = { version = "*", features = ["env-filter"] }
