[package]
name = "braille_suite"
version = "0.1.0"
edition = "2021"
publish = false

[dependencies]
tossicat = "*"
serde = { version = "1", features = ["derive"] }
serde_json = "1"
thiserror = "*"
axum = "*"
tokio = { version = "1", features = ["full"] }
tower-http = { version = "*", features = ["cors"] }
tracing = "*"
tracing-subscriber = "*"
dotenvy = "*"
typed-builder = "*"
libm = "*"
log = "*"
bitflags = "2"
tinyvec = { version = "1", features = ["alloc"] }
