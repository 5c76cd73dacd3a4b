[package]
name = "pace26stride"
version = "0.1.0"
edition = "2021"
publish = false

[dependencies]
serde_json = "*"
tokio = { version = "*", features = ["full"] }
clap = { version = "*", features = ["derive", "env"] }
console = "*"
indicatif = "*"
reqwest = { version = "*", default-features = false, features = ["json", "rustls-tls"] }
url = "*"
glob = "*"
libc = "*"
num_cpus = "*"
chrono = "*"
tracing = "*"
tracing-subscriber = "*"
