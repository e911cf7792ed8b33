[package]
name = "yuyu_core"
version = "0.1.0"
edition = "2021"
publish = false

[dependencies]
serde_json = "=1.0.151"
nipper = "=0.1.9"
reqwest = { version = "*", features = ["cookies"] }
tokio = { version = "*", features = ["macros", "rt-multi-thread", "fs"] }
anyhow = "*"
clap = "*"
url = "*"
