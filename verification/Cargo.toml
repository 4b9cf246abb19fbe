[package]
name = "jlucourse"
version = "0.1.0"
edition = "2021"
publish = false

[dependencies]
reqwest = { version = "=0.12.28", default-features = false, features = ["rustls-tls"] }
serde = { version = "=1.0.229", features = ["derive"] }
serde_json = "=1.0.154"
serde_urlencoded = "=0.7.1"
log = "=0.4.35"
env_logger = "=0.11.11"
actix-web = "=4.18.1"
actix-cors = "=0.7.2"
leptos = { version = "=0.8.23", features = ["csr"] }
wasm-bindgen = "=0.2.130"
web-sys = { version = "=0.3.107", features = ["SubmitEvent", "Window"] }
js-sys = "=0.3.107"
gloo-timers = { version = "=0.3.0", features = ["futures"] }
