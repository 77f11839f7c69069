[package]
name = "mailclient"
version = "0.1.0"
edition = "2021"
publish = false

[dependencies]
anyhow = "1"
camino = "1"
clap = { version = "4", features = ["derive", "env"] }
directories = "*"
eframe = { version = "*", default-features = false, features = ["glow", "default_fonts", "x11"] }
egui = { version = "*", default-features = false, features = ["default_fonts"] }
rpassword = "*"
serde = { version = "1", features = ["derive"] }
serde_json = "1"
softbuffer = { version = "*", default-features = false, features = ["x11"] }
tokio = { version = "1", features = ["rt", "rt-multi-thread", "net", "io-util", "sync", "time", "macros"] }
tracing = "0.1"
tracing-subscriber = { version = "0.3", features = ["env-filter"] }
winit = { version = "0.30", default-features = false, features = ["x11"] }
