[package]
name = "openldbsvws"
version = "0.1.0"
edition = "2021"
publish = false

[dependencies]
anyhow = "1"
chrono = { version = "0.4", default-features = false, features = ["std"] }
clap = "4"
reqwest = { version = "0.12", default-features = false, features = ["rustls-tls"] }
roxmltree = "*"
serde = { version = "1", features = ["derive"] }
thiserror = "1"
tokio = { version = "1", features = ["rt"] }
