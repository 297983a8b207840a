[package]
name = "orbiter"
version = "0.1.0"
edition = "2021"
publish = false

[dependencies]
uuid = { version = "*", features = ["v4"] }
wsl = "*"
ci_info = "*"
serde_json = "*"
reqwest = { version = "*", default-features = false, features = ["blocking"] }
clap = { version = "*", features = ["derive"] }
http = "*"
tower = "*"
async-trait = "*"
tracing = "*"
lazy_static = "*"
