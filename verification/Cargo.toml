[package]
name = "mqb_flash"
version = "0.1.0"
edition = "2021"
publish = false

[dependencies]
anyhow = "=1.0.104"
async-stream = "=0.3.6"
automotive = { version = "=0.5.0", features = ["panda", "socketcan"] }
clap = { version = "=4.6.7", features = ["derive"] }
crc32fast = "=1.5.4"
iced = { version = "=0.14.0", default-features = false, features = ["tiny-skia", "tokio", "x11"] }
libloading = "=0.9.0"
rfd = { version = "=0.16.1", default-features = false, features = ["xdg-portal", "tokio"] }
thiserror = "=2.0.21"
tokio = { version = "=1.54.1", features = ["full"] }
tracing = "=0.1.44"
tracing-subscriber = { version = "=0.3.23", features = ["env-filter"] }
zip = { version = "=7.4.0", default-features = false, features = ["deflate"] }
