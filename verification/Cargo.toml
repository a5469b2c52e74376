[package]
name = "minority_game"
version = "0.1.0"
edition = "2021"
publish = false

[dependencies]
rand = "=0.8.8"
serde = { version = "=1.0.229", features = ["derive"] }
bonsaidb = { version = "=0.5.0", features = ["server", "cli", "password-hashing", "websockets"] }
clap = { version = "4", features = ["derive"] }
tokio = { version = "=1.54.1", features = ["full"] }
anyhow = "=1.0.104"
log = "=0.4.35"
approx = "=0.5.1"
