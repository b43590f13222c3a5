[package]
name = "sorrow"
version = "0.1.0"
edition = "2021"
publish = false

[dependencies]
bevy = { version = "=0.15.3", default-features = false }
leptos = { version = "=0.7.8", features = ["csr"] }
leptos_meta = "=0.7.8"
reactive_stores = "=0.1.8"
send_wrapper = "=0.6.0"
gloo-worker = "=0.5.0"
gloo-timers = "=0.3.0"
tracing = "=0.1.44"
tracing-wasm = "=0.2.1"
wasm-bindgen = "=0.2.130"
web-sys = { version = "=0.3.107", features = ["WorkerGlobalScope"] }
serde = { version = "1", features = ["derive"] }
floating-ui-leptos = "0.3"
leptos-node-ref = "0.1"
