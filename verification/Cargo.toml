[package]
name = "webex"
version = "0.1.0"
edition = "2021"
publish = false

[dependencies]
serde_json = "*"
serde_html_form = "*"
serde = { version = "*", features = ["derive"] }
reqwest = { version = "*", default-features = false, features = ["json"] }
tokio-tungstenite = "*"
tokio = { version = "*", features = ["rt", "macros", "time"] }
futures-util = "*"
