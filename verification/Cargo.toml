[package]
name = "themesync"
version = "0.1.0"
edition = "2021"
publish = false

[dependencies]
anyhow = "*"
bluer = { version = "*", features = ["bluetoothd"] }
btleplug = "*"
clap = { version = "4", features = ["derive"] }
futures = "*"
hmac = "*"
libc = "0.2"
serde = { version = "1", features = ["derive"] }
serde_json = "1"
sha2 = "*"
subtle = "2"
tokio = { version = "1", features = ["full"] }
uuid = { version = "1", features = ["macro-diagnostics"] }
