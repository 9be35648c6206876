[package]
name = "tag_access"
version = "0.1.0"
edition = "2021"
publish = false

[dependencies]
aes = "*"
bluer = { version = "*", features = ["bluetoothd"] }
chrono = "*"
clap = { version = "*", features = ["derive"] }
env_logger = "*"
futures = "*"
log = "*"
reqwest = { version = "*", default-features = false, features = ["json"] }
serde = { version = "*", features = ["derive"] }
serde_yaml = "*"
tokio = { version = "*", features = ["rt", "macros", "time"] }
urlencoding = "*"
