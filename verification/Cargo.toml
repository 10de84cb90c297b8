[package]
name = "luneweb"
version = "0.1.0"
edition = "2021"
publish = false

[dependencies]
anyhow = "=1.0.104"
bstr = "=1.13.1"
http-body-util = "=0.1.5"
hyper = "=1.12.0"
mlua = { version = "=0.9.9", features = ["luau", "async"] }
mlua-luau-scheduler = "=0.0.2"
once_cell = "=1.21.4"
regex = "=1.13.1"
reqwest = { version = "=0.11.27", default-features = false }
serde = { version = "=1.0.229", features = ["derive"] }
serde_json = "=1.0.154"
thiserror = "=1.0.69"
tokio = { version = "=1.54.1", features = ["sync", "rt", "time", "macros", "fs"] }
tokio-tungstenite = { version = "=0.21.0", default-features = false, features = ["connect"] }
urlencoding = "=2.1.3"
winit = { version = "0.29", default-features = false, features = ["x11", "rwh_06"] }
zip_next = { version = "=1.1.1", default-features = false }
