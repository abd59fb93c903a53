[package]
name = "serve_core"
version = "0.1.0"
edition = "2021"
publish = false

[dependencies]
axum = "*"
futures-util = "*"
hyper = { version = "*", features = ["server", "http1", "http2"] }
hyper-util = { version = "*", features = ["tokio", "server-auto", "http1", "http2"] }
libc = "*"
log = "*"
nix = { version = "*", features = ["user"] }
serde = { version = "*", features = ["derive"] }
tokio = { version = "*", features = ["net", "signal", "rt", "macros"] }
tokio-util = { version = "*", features = ["net", "rt"] }
tower = "*"
