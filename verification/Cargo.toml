[package]
name = "tornado_matcher"
version = "0.1.0"
edition = "2021"
publish = false

[dependencies]
regex = "1"
serde = { version = "1", features = ["derive"] }
serde_json = "1"
structopt = "0.3"
actix = "0.13"
actix-web = "4"
chrono = "0.4"
log = "0.4"
