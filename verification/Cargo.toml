[package]
name = "nskit"
version = "0.1.0"
edition = "2021"
publish = false

[dependencies]
reqwest = { version = "*", default-features = false, features = ["query"] }
tokio = { version = "*", features = ["sync"] }
serde = { version = "*", features = ["derive"] }
serde_json = "*"
serde_repr = "*"
quick-xml = { version = "*", features = ["serialize"] }
lapin = { version = "*", default-features = false }
futures-util = "*"
serenity = { version = "*", default-features = false, features = ["builder", "http", "model", "utils", "rustls_backend"] }
url = "*"
simplelog = "*"
log = "*"
