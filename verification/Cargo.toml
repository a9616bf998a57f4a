[package]
name = "uniterm_server"
version = "0.1.0"
edition = "2021"
publish = false

[dependencies]
mio = { version = "1", features = ["os-poll", "os-ext", "net"] }
unicode-segmentation = "1"
unicode-width = "0.2"
