[package]
name = "object_storage_proxy"
version = "0.1.0"
edition = "2021"
publish = false

[dependencies]
async-trait = "*"
dotenv = "*"
env_logger = "*"
http = "*"
pingora = { version = "*", features = ["proxy"] }
pyo3 = "*"
reqwest = { version = "*", default-features = false, features = ["blocking", "json"] }
serde = { version = "*", features = ["derive"] }
serde_json = "*"
tokio = { version = "*", features = ["rt", "rt-multi-thread", "sync"] }
