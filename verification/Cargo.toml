[package]
name = "ezdb"
version = "0.1.0"
edition = "2021"
publish = false

[dependencies]
rusqlite = { version = "*", features = ["bundled"] }
serde = { version = "*", features = ["derive"] }
serde_json = "*"
crossbeam-channel = "*"
futures = "*"
actix-web = { version = "*", default-features = false, features = ["macros"] }
actix-web-httpauth = "*"
actix-rt = "*"
structopt = "*"
