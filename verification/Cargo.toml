[package]
name = "rocket_sim"
version = "0.1.0"
edition = "2021"
publish = false

[dependencies]
bevy = { version = "0.17", default-features = false, features = ["std", "bevy_log"] }
keplerian_sim = "*"
chrono = "0.4"
flate2 = "1"
tracing = "0.1"
tracing-appender = "0.2"
