[package]
name = "encoder"
version = "0.1.0"
edition = "2021"
publish = false

[dependencies]
bytes = "1"
dotenv = "0.15"
ethers = "2"
hex = "0.4"
tokio = { version = "1", features = ["macros", "rt-multi-thread", "time"] }
