[package]
name = "niconico_watcher"
version = "0.1.0"
edition = "2021"
publish = false

[dependencies]
async-trait = "*"
chrono = { version = "*", features = ["serde"] }
cron = "*"
form_urlencoded = "*"
log = "*"
quick-xml = "*"
reqwest = { version = "0.12", features = ["json"] }
serde = { version = "*", features = ["derive"] }
serenity = "*"
tokio = { version = "*", features = ["rt", "macros", "time"] }
toml = "*"
