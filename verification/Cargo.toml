[package]
name = "huidu-player"
version = "0.1.0"
edition = "2021"
publish = false

[dependencies]
anyhow = "1"
byteorder = "1"
chrono = "0.4"
clap = { version = "4", features = ["derive"] }
gif = "*"
image = { version = "*", default-features = false, features = ["png", "jpeg", "bmp"] }
md5 = "*"
quick-xml = { version = "*", features = ["serialize"] }
rusttype = "*"
serde = { version = "1", features = ["derive"] }
tiny-skia = "*"
tokio = { version = "1", features = ["full"] }
tracing = "0.1"
tracing-subscriber = { version = "0.3", features = ["env-filter"] }
uuid = { version = "1", features = ["v4"] }
