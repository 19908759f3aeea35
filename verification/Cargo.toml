[package]
name = "gasbench"
version = "0.1.0"
edition = "2021"
publish = false

[dependencies]
clap = { version = "4", features = ["derive"] }
colored = "2"
ethers = { version = "2", default-features = false }
eyre = "0.6"
hex = "0.4"
serde = { version = "1", features = ["derive"] }
serde_json = "1"
tabled = "0.15"
tokio = { version = "1", features = ["macros", "rt-multi-thread"] }
