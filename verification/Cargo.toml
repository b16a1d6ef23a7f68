[package]
name = "atc_search"
version = "0.1.0"
edition = "2021"
publish = false

[dependencies]
askama_axum = "0.4"
axum = "0.7"
csv = "1"
itertools = "0.13"
moka = { version = "0.12", features = ["sync"] }
serde = { version = "1", features = ["derive"] }
strsim = "0.11"
tokio = { version = "1", features = ["macros", "rt-multi-thread", "net"] }
tower-http = { version = "0.5", features = ["trace"] }
tracing = "0.1"
tracing-subscriber = "0.3"
