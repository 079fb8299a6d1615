[package]
name = "wifi"
version = "0.1.0"
edition = "2021"
publish = false

[dependencies]
regex = "1"
isocountry = "0.3"
tokio = { version = "1", features = ["process", "time", "rt-multi-thread", "macros", "sync"] }
serde = { version = "1", features = ["derive"] }
serde_json = "1"
prettytable-rs = "0.10"
clap = "4"
