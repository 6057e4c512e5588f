[package]
name = "moonhold_sim"
version = "0.1.0"
edition = "2021"
publish = false

[dependencies]
hecs = "*"
serde = { version = "*", features = ["derive"] }
bincode = { version = "*", features = ["serde"] }
renet = "*"
renet_netcode = "*"
tokio = { version = "*", features = ["macros", "rt-multi-thread", "time"] }
tracing = "*"
tracing-subscriber = { version = "*", features = ["env-filter"] }
config = { version = "*", default-features = false, features = ["toml"] }
dotenvy = "*"
anyhow = "*"
