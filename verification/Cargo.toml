[package]
name = "ecstasy"
version = "0.1.0"
edition = "2021"
publish = false

[dependencies]
serde_json = "*"
sanitise-file-name = "*"
serde = { version = "*", features = ["derive"] }
toml = "*"
clap = { version = "*", features = ["derive"] }
osu-db = "*"
reqwest = { version = "*", default-features = false, features = ["json"] }
tokio = { version = "*", features = ["rt-multi-thread", "macros", "sync", "time", "fs"] }
