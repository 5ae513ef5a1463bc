[package]
name = "emtm_verify"
version = "0.1.0"
edition = "2021"
publish = false

[dependencies]
actix-web = { version = "=1.0.9", default-features = false, features = ["client"] }
base64 = "=0.10.1"
chrono = "=0.4.19"
dotenv = "=0.14.1"
futures = "=0.1.31"
hex = "=0.3.2"
image = "=0.21.3"
log = "0.4"
md-5 = "=0.8.0"
openssl-probe = "=0.1.6"
rand = "=0.6.5"
serde = { version = "1", features = ["derive"] }
serde_json = "1"
