[package]
name = "ga_sandbox"
version = "0.1.0"
edition = "2021"
publish = false

[dependencies]
cgmath = { version = "0.18", features = ["serde"] }
derive_more = { version = "2", features = ["add", "add_assign", "not"] }
eframe = { version = "0.31", default-features = false, features = ["default_fonts", "persistence", "wayland", "wgpu", "x11"] }
encase = { version = "*", features = ["cgmath"] }
ron = "*"
serde = { version = "1", features = ["derive"] }
