[package]
name = "bevy_puffin"
version = "0.1.0"
edition = "2021"
publish = false

[dependencies]
bevy = { version = "0.11", default-features = false }
puffin = "0.16"
tracing = "0.1"
tracing-core = "0.1"
tracing-subscriber = { version = "0.3", features = ["env-filter", "fmt", "registry"] }
tracing-log = "0.1"
tracing-error = "0.2"
console_error_panic_hook = "0.1"
tracing-wasm = "0.2"
