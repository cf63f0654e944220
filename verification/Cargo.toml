[package]
name = "laz_rpc"
version = "0.1.0"
edition = "2021"
publish = false

[dependencies]
serde = "1"
serde_json = "=1.0.151"
reqwest = { version = "=0.12.28", default-features = false, features = ["json", "blocking"] }
