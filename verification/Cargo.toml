[package]
name = "cosmic_comp"
version = "0.1.0"
edition = "2021"
publish = false

[dependencies]
anyhow = "1"
calloop = "*"
clap_lex = "*"
futures-executor = { version = "0.3", features = ["thread-pool"] }
profiling = "1"
rustix = { version = "1", features = ["process"] }
smithay = { version = "*", default-features = false, features = ["wayland_frontend", "renderer_gl"] }
tracing = "0.1"
zbus = "5"
