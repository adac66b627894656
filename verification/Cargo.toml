[package]
name = "werewolf_lobby"
version = "0.1.0"
edition = "2021"
publish = false

[dependencies]
axum = { version = "*", features = ["ws"] }
axum-macros = "*"
futures-util = "*"
log = "*"
rand = "0.8"
serde = { version = "*", features = ["derive"] }
serde_json = "*"
shuttle-axum = "*"
shuttle-runtime = "*"
tokio = { version = "*", features = ["sync", "rt", "macros"] }
tower-http = { version = "*", features = ["fs"] }
