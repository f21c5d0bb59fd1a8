[package]
name = "mdrender"
version = "0.1.0"
edition = "2021"
publish = false

[dependencies]
syntect = { version = "*", default-features = false, features = ["default-fancy"] }
comrak = "*"
cursive = "*"
futures = "*"
serde = { version = "*", features = ["derive"] }
serde_json = "*"
surf = { version = "*", default-features = false, features = ["h1-client-rustls"] }
