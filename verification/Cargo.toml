[package]
name = "simple_ssh_pot"
version = "0.1.0"
edition = "2021"
publish = false

[dependencies]
tokio = { version = "1", features = ["rt-multi-thread", "macros", "net", "signal", "time", "sync"] }
tokio-util = "0.7"
reqwest = { version = "0.12", default-features = false, features = ["json"] }
config = { version = "0.14", default-features = false, features = ["toml"] }
log = "0.4"
simplelog = "0.12"
