[package]
name = "webgal_craft"
version = "0.1.0"
edition = "2021"
publish = false

[dependencies]
axum = { version = "*", features = ["ws"] }
blake3 = "*"
futures = "*"
image = "*"
portpicker = "*"
tokio = { version = "*", features = ["rt-multi-thread", "net", "sync", "macros", "signal"] }
tower = { version = "*", features = ["util"] }
tower-http = { version = "*", features = ["fs"] }
trash = "*"
urlencoding = "*"
webp = "*"
