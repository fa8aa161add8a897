[package]
name = "resender"
version = "0.1.0"
edition = "2021"
publish = false

[dependencies]
swsml = "=0.3.0"
swi18n = "=0.1.2"
libsmx = "=0.3.0"
base64 = "=0.22.1"
rand = "=0.8.8"
comrak = { version = "=0.54.0", default-features = false }
css-inline = { version = "=0.21.2", default-features = false }
serde = { version = "=1.0.229", features = ["derive"] }
serde_json = "=1.0.154"
anyhow = "=1.0.104"
dirs = "=7.0.0"
reqwest = { version = "=0.12.28", default-features = false, features = ["blocking", "json", "rustls-tls"] }
tokio = { version = "=1.54.1", features = ["rt-multi-thread"] }
rhai = { version = "=1.27.0", features = ["sync"] }
