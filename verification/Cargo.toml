[package]
name = "latex_gen"
version = "0.1.0"
edition = "2021"
publish = false

[dependencies]
serde = { version = "=1.0.229", features = ["derive"] }
serde_json = "=1.0.154"
ron = "=0.12.2"
prost = "=0.14.4"
nom = "7"
actix-web = { version = "4", default-features = false, features = ["macros"] }
actix-multipart = { version = "0.6", default-features = false }
actix-cors = "0.6"
futures = "0.3"
derive_more = "0.99"
