[package]
name = "h1_transport"
version = "0.1.0"
edition = "2021"
publish = false

[dependencies]
actix-codec = "*"
actix-rt = "*"
actix-service = "*"
actix-tls = "*"
futures-core = "*"
futures-util = "*"
log = "*"
pin-project = "*"
pin-project-lite = "*"
