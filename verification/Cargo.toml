[package]
name = "dionysus"
version = "0.1.0"
edition = "2021"
publish = false

[dependencies]
regex = "1"
chrono = "0.4"
ta = "0.5"
serde = { version = "1", features = ["derive"] }
serde_json = "1"
slog = "2"
slog-scope = "4"
rand = "0.8"
rand_distr = "0.4"
clap = { version = "4", features = ["derive"] }
