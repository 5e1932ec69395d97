[package]
name = "dashboard_server"
version = "0.1.0"
edition = "2021"
publish = false

[dependencies]
axum = "0.7"
axum-extra = "0.9"
tokio = { version = "1", features = ["full"] }
tower-http = { version = "0.6", features = ["fs"] }
