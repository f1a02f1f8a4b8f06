[package]
name = "github_secrets_manager"
version = "0.1.0"
edition = "2021"
publish = false

[dependencies]
base64 = "*"
sodiumoxide = "*"
serde = { version = "*", features = ["derive"] }
serde_json = "*"
reqwest = { version = "*", default-features = false, features = ["rustls-tls", "json"] }
tokio = { version = "*", features = ["rt-multi-thread", "macros"] }
dotenv = "*"
thiserror = "*"
crossterm = "*"
ratatui = "*"
