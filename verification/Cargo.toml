[package]
name = "escpos_emulator"
version = "0.1.0"
edition = "2021"
publish = false

[dependencies]
anyhow = "1"
egui = { version = "*", default-features = false }
qrcode = { version = "*", default-features = false }
serde = { version = "1", features = ["derive"] }
tokio = { version = "1", features = ["sync"] }
