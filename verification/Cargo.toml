[package]
name = "busplug"
version = "0.1.0"
edition = "2021"
publish = false

[dependencies]
actix-files = "0.6"
actix-web = { version = "4", default-features = false, features = ["macros"] }
chrono = { version = "0.4", default-features = false, features = ["clock"] }
handlebars = "*"
lazy_static = "1"
reqwest = { version = "0.12", default-features = false, features = ["blocking"] }
serde = "1"
serde_json = "1"
