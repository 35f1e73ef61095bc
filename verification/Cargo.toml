[package]
name = "dragonfox"
version = "0.1.0"
edition = "2021"
publish = false

[dependencies]
eframe = { version = "=0.37.0", default-features = false, features = ["default_fonts", "glow", "x11"] }
egui = "=0.37.0"
rfd = { version = "=0.17.2", default-features = false, features = ["xdg-portal"] }
reqwest = { version = "=0.13.5", features = ["json"] }
serde_json = "=1.0.154"
rpassword = "=7.5.4"
tokio = { version = "=1.54.1", features = ["macros", "rt-multi-thread"] }
