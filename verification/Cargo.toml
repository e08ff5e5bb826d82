[package]
name = "payment_processing_engine"
version = "0.1.0"
edition = "2021"
publish = false

[dependencies]
hashbrown = "*"
tinyset = "*"
csv = "*"
clap = { version = "*", features = ["cargo"] }
serde = { version = "*", features = ["derive"] }
