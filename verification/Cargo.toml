[package]
name = "oxru"
version = "0.1.0"
edition = "2021"
publish = false

[dependencies]
anyhow = "1"
arboard = { version = "3", default-features = false }
dirs = "*"
ignore = "0.4"
pollster = "*"
ratatui = { version = "*", default-features = false, features = ["crossterm"] }
ratatui-wgpu = "*"
ropey = "1"
serde = { version = "1", features = ["derive"] }
toml = "*"
tracing = "0.1"
tracing-subscriber = { version = "0.3", features = ["env-filter"] }
winit = { version = "0.30", default-features = false, features = ["x11", "rwh_06"] }

[dev-dependencies]
tempfile = "3"
