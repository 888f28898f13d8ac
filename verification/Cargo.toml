[package]
name = "gemini-cli"
version = "0.1.0"
edition = "2021"
publish = false

[dependencies]
clap = { version = "4", features = ["derive"] }
colored = "2"
confy = "0.6"
ctrlc = "3"
diffy = "0.4"
dirs = "5"
dotenv = "0.15"
env_logger = "0.11"
futures = "0.3"
indicatif = "0.17"
log = "0.4"
reqwest = { version = "0.12", default-features = false, features = ["json"] }
serde = { version = "1", features = ["derive"] }
serde_json = "1"
tokio = { version = "1", features = ["full"] }
