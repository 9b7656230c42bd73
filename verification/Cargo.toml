[package]
name = "delta_journal"
version = "0.1.0"
edition = "2021"
publish = false

[dependencies]
chrono = { version = "0.4", default-features = false, features = ["clock", "std"] }
git2 = { version = "0.16", default-features = false }
notify = "5"
serde = { version = "1", features = ["derive"] }
toml = "0.7"
log = "0.4"
anyhow = "1"
