[package]
name = "extra_widgets"
version = "0.1.0"
edition = "2021"
publish = false

[dependencies]
bounded-vec-deque = "0.1"
tui = { version = "0.19", default-features = false }
ratatui = { version = "0.20", default-features = false }
serde = { version = "1", features = ["derive"] }
serde_derive = "1"
lazy_static = "1"
