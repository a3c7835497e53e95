[package]
name = "modsync"
version = "0.1.0"
edition = "2021"
publish = false

[dependencies]
anyhow = "=1.0.104"
clap = { version = "=4.6.7", features = ["derive"] }
eframe = { version = "0.32", default-features = false, features = ["default_fonts", "glow", "x11"] }
egui = "0.32"
futures = "=0.3.34"
image = { version = "=0.25.10", default-features = false, features = ["png"] }
parking_lot = "=0.12.5"
reqwest = { version = "=0.12.28", default-features = false, features = ["rustls-tls"] }
sha2 = "=0.10.9"
tokio = { version = "=1.54.1", features = ["macros", "rt-multi-thread", "sync", "time"] }
