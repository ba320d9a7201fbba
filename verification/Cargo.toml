[package]
name = "azor"
version = "0.1.0"
edition = "2021"
publish = false

[dependencies]
strsim = "0.11"
urlencoding = "2"
zip = { version = "9", default-features = false, features = ["deflate"] }
text-splitter = { version = "0.33", features = ["markdown", "tiktoken-rs"] }
tiktoken-rs = "0.12"
serde = { version = "1", features = ["derive"] }
serde_json = "1"
thiserror = "*"
tokio = { version = "1", features = ["full"] }
tokio-stream = "*"
tokio-tungstenite = { version = "*", features = ["rustls-tls-webpki-roots"] }
futures = "*"
axum = { version = "*", features = ["ws", "multipart"] }
tower-http = { version = "*", features = ["trace"] }
reqwest = { version = "0.12", default-features = false, features = ["json", "rustls-tls"] }
jsonwebtoken = "9"
envy = "*"
tracing = "*"
tracing-subscriber = { version = "*", features = ["env-filter"] }
utoipa = "*"
utoipa-scalar = { version = "*", features = ["axum"] }
rustls = { version = "*", default-features = false, features = ["ring", "std"] }
schemars = "*"
documented = "*"
