[package]
name = "acadrust-dxf-bench"
version = "0.1.0"
edition = "2021"
publish = false

[dependencies]
acadrust = "0.3"
dxf = "0.6"
rand = "0.8"
clap = { version = "4", default-features = false, features = ["std", "derive", "help", "usage", "error-context"] }
comfy-table = { version = "7", default-features = false }
serde = { version = "1", features = ["derive"] }
serde_json = "1"
eframe = { version = "0.31", default-features = false, features = ["default_fonts", "glow", "x11"] }
rfd = { version = "0.15", default-features = false, features = ["gtk3"] }
