[package]
name = "cosmic-caldav"
version = "0.1.0"
edition = "2021"
publish = false

[dependencies]
chrono = "0.4"
chrono-tz = "0.10"
quick-xml = "0.37"
reqwest = { version = "0.12", default-features = false, features = ["stream"] }
uuid = { version = "1", features = ["v4"] }
zeroize = "1"
serde = { version = "1", features = ["derive"] }
serde_json = "1"
dirs = "6"
keyring = { version = "3", features = ["linux-native"] }
futures-util = "0.3"
