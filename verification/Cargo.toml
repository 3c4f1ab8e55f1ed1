[package]
name = "updater"
version = "0.1.0"
edition = "2021"
publish = false

[dependencies]
bipatch = "*"
clap = { version = "*", features = ["derive"] }
comde = "*"
once_cell = "*"
reqwest = { version = "*", default-features = false, features = ["blocking"] }

[dev-dependencies]
bidiff = "*"
