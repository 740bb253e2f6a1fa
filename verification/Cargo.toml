[package]
name = "navidrome_tui"
version = "0.1.0"
edition = "2021"
publish = false

[dependencies]
md5 = "0.7"
random-string = "*"
serde = { version = "1", features = ["derive"] }
serde_json = "1"
serde_yaml = "0.9"
log = "0.4"
dirs = "5"
dialoguer = "0.11"
tokio = { version = "1", features = ["rt-multi-thread", "macros", "time", "fs"] }
reqwest = { version = "0.12", default-features = false, features = ["json", "blocking", "rustls-tls"] }
sqlx = { version = "0.8", default-features = false, features = ["sqlite", "runtime-tokio"] }
