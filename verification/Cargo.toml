[package]
name = "locker_watch"
version = "0.1.0"
edition = "2021"
publish = false

[dependencies]
geo = "0.29"
json = "0.12"
reqwest = { version = "0.12", features = ["blocking"] }
serde = { version = "1", features = ["derive"] }
serde_derive = "1"
ureq = "2"
