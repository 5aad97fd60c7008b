[package]
name = "upload_pipeline"
version = "0.1.0"
edition = "2021"
publish = false

[dependencies]
sanitize-filename = "*"
uuid = { version = "*", features = ["v4"] }
actix-web = "*"
actix-multipart = "*"
actix-files = "*"
futures-util = "*"
