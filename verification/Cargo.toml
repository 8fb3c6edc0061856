[package]
name = "advent_of_utils"
version = "0.2.0"
edition = "2021"
publish = false

[dependencies]
chrono = "0.4"
libloading = "*"
clap = { version = "4", features = ["derive"] }
reqwest = { version = "0.12", default-features = false, features = ["blocking", "cookies", "rustls-tls"] }
rusqlite = { version = "*", features = ["bundled"] }
r2d2 = "*"
r2d2_sqlite = "*"
directories = "*"
tempfile = "*"
