[package]
name = "shared_lib"
version = "0.1.0"
edition = "2021"
publish = false

[dependencies]
regex = "1"
actix-web = { version = "4", default-features = false, features = ["macros"] }
axum = "*"
axum-extra = { version = "*", features = ["typed-header"] }
mime = "0.3"
rocket = { version = "0.5", features = ["json"] }
serde = { version = "1", features = ["derive"] }
serde_json = "1"
tokio = { version = "1", features = ["full"] }
