[package]
name = "reaction_bot"
version = "0.1.0"
edition = "2021"
publish = false

[dependencies]
anyhow = "*"
dotenv = "*"
tokio = { version = "*", features = ["macros", "rt-multi-thread"] }
tracing = "*"
tracing-subscriber = "*"
twilight-cache-inmemory = "*"
twilight-gateway = "*"
twilight-http = "*"
twilight-interactions = "*"
twilight-model = "*"
