[package]
name = "sky_color_wallpaper"
version = "0.1.0"
edition = "2021"
publish = false

[dependencies]
anyhow = "1"
atty = "0.2"
derive_more = "0.99"
dirs-next = "2"
geodate = "*"
glob = "0.3"
itertools = "0.10"
once_cell = "1"
rand = "0.8"
reqwest = { version = "0.11", default-features = false, features = ["blocking", "json", "rustls-tls"] }
serde = { version = "1", features = ["derive"] }
serde_yaml = "0.9"
structopt = "0.3"
strum = { version = "0.24", features = ["derive"] }
time = { version = "0.3", features = ["local-offset"] }
tracing = "0.1"
tracing-subscriber = { version = "0.3", features = ["ansi", "fmt"] }
url = "2"
wallpaper = "*"
