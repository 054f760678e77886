[package]
name = "nanoai"
version = "0.1.0"
edition = "2021"
publish = false

[dependencies]
serde = { version = "*", features = ["derive"] }
serde_json = "*"
reqwest = { version = "*", default-features = false, features = ["json", "stream"] }
tokio = { version = "*", features = ["sync"] }
futures = "*"
async-stream = "*"
bytes = "*"
log = "*"
dotenv = "*"
fastrand = "*"
thiserror = "*"
