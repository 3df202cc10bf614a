[package]
name = "rok"
version = "0.2.0"
edition = "2021"
publish = false

[dependencies]
heck = "0.5"
clap = { version = "4", features = ["derive"] }
serde = { version = "1", features = ["derive"] }
serde_json = "1"
colored = "2"
similar = "2"
walkdir = "2"
globset = "0.4"
tera = { version = "1", default-features = false }
flate2 = "1"
tar = "0.4"
regex = "1"
chrono = "0.4"
dirs = "5"
atty = "0.2"
indicatif = "0.17"
rayon = "1"
reqwest = { version = "0.12", default-features = false, features = ["blocking"] }
