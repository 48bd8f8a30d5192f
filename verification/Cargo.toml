[package]
name = "warden_twofactor"
version = "0.1.0"
edition = "2021"
publish = false

[dependencies]
axum = { version = "0.8", default-features = false, features = ["json"] }
base64 = "0.22"
chrono = "0.4"
ciborium = "0.2"
constant_time_eq = "*"
getrandom = "0.3"
hex = "0.4"
log = "0.4"
serde = { version = "1", features = ["derive"] }
serde_json = "1"
sha2 = "0.10"
tower-http = { version = "0.6", features = ["set-header"] }
url = "2"
uuid = { version = "1", features = ["v4"] }
wasm-bindgen = "0.2"
worker = { version = "*", features = ["d1", "http"] }
