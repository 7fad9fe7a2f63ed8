[package]
name = "carrot_geyser_plugin"
version = "0.1.0"
edition = "2021"
publish = false

[dependencies]
agave-geyser-plugin-interface = "2"
serde = { version = "1", features = ["derive"] }
serde_json = "1"
solana-program = "2"
tokio = { version = "1", features = ["rt", "rt-multi-thread"] }
