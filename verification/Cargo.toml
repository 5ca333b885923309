[package]
name = "backpack"
version = "0.1.0"
edition = "2021"
publish = false

[dependencies]
chrono = "0.4"
rand = "0.8"
image = { version = "0.24", default-features = false, features = ["png", "jpeg", "gif", "webp"] }
serde = { version = "1", features = ["derive"] }
serde_json = "1"
serde-aux = "4"
actix-web = "4"
actix-multipart = "0.6"
futures = "0.3"
once_cell = "1"
thiserror = "1"
tokio = { version = "1", features = ["rt-multi-thread", "macros", "time", "sync"] }
git-version = "0.3"
log = "0.4"
env_logger = "0.10"
dotenv = "0.15"
colored = "2"
anyhow = "1"
clap = { version = "3", features = ["derive"] }
num_cpus = "1"
lazy_static = "1"
