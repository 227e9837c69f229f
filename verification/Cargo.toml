[package]
name = "win_count"
version = "0.1.0"
edition = "2021"
publish = false

[dependencies]
base64 = "0.21"
chrono = "0.4"
dirs = "5"
futures-util = { version = "0.3", features = ["sink"] }
global-hotkey = "*"
hex = "0.4"
machine-uid = "0.5"
qrcode = { version = "*", default-features = false, features = ["svg"] }
rand = "0.8"
regex = "1"
reqwest = { version = "0.12", default-features = false, features = ["json", "rustls-tls"] }
serde = { version = "1", features = ["derive"] }
serde_json = "1"
sha2 = "0.10"
tokio = { version = "1", features = ["rt-multi-thread", "net", "io-util", "sync", "macros", "time"] }
tokio-tungstenite = "0.21"
winapi = { version = "0.3", features = ["winuser"] }
