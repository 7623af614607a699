[package]
name = "engine"
version = "0.1.0"
edition = "2021"
publish = false

[dependencies]
anyhow = "=1.0.104"
axum = "=0.7.9"
bcrypt = "=0.15.1"
bevy = { version = "=0.13.2", default-features = false }
bevy_quinnet = "=0.8.0"
clap = { version = "=4.6.7", features = ["derive"] }
futures = "=0.3.34"
josekit = "=0.8.7"
once_cell = "=1.21.4"
reqwest = { version = "=0.12.28", default-features = false, features = ["json"] }
serde = { version = "=1.0.229", features = ["derive"] }
time = { version = "=0.3.55", features = ["serde", "formatting", "parsing"] }
tokio = { version = "=1.54.1", features = ["full"] }
tokio-util = "=0.7.11"
tower-http = { version = "=0.5.2", features = ["trace"] }
tracing = "=0.1.44"
tracing-subscriber = "=0.3.23"
uuid = { version = "=1.29.0", features = ["v4", "serde"] }
