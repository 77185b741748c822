[package]
name = "snapback"
version = "0.1.0"
edition = "2021"
publish = false

[dependencies]
chrono = { version = "0.4", default-features = false, features = ["std"] }
clap = { version = "4", features = ["derive"] }
glob = "0.3"
image = { version = "0.25", default-features = false, features = ["jpeg", "png", "webp"] }
indicatif = "0.17"
rayon = "1"
ripunzip = "*"
serde = { version = "1", features = ["derive"] }
serde_json = "1"
