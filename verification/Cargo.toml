[package]
name = "sonar"
version = "0.1.0"
edition = "2021"
publish = false

[dependencies]
fastrand = "=2.5.0"
socket2 = { version = "=0.5.10", features = ["all"] }
clap = { version = "=4.6.7", features = ["derive"] }
colored = "=2.2.0"
ctrlc = "=3.5.2"
indicatif = "=0.17.11"
reqwest = { version = "=0.12.28", default-features = false, features = ["blocking"] }
serde_json = "=1.0.151"
tracing = "=0.1.44"
tracing-subscriber = "=0.3.23"
tracing-indicatif = "=0.3.14"
