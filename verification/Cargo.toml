[package]
name = "sublist3r_rs"
version = "0.1.0"
edition = "2021"
publish = false

[dependencies]
serde_json = "=1.0.151"
base64 = "=0.23.1"
reqwest = { version = "=0.13.5", default-features = false, features = ["cookies", "gzip", "query", "form"] }
tokio = { version = "=1.53.2", features = ["rt-multi-thread", "macros", "time"] }
clap = { version = "=4.6.7", features = ["derive"] }
clap_complete = "=4.6.11"
anyhow = "=1.0.104"
tracing = "=0.1.44"
tracing-subscriber = "=0.3.23"
owo-colors = "=4.4.0"
url = "=2.5.8"
fastrand = "=2.5.0"
