[package]
name = "assistant_relay"
version = "0.1.0"
edition = "2021"
publish = false

[dependencies]
async-openai-wasi = "=0.16.4"
discord-flows = "0.6.3"
dotenv = "=0.15.0"
flowsnet-platform-sdk = "=0.1.6"
log = "=0.4.34"
serde_json = "=1.0.154"
store-flows = "=0.3.2"
tokio_wasi = { version = "=1.25.2", features = ["macros", "rt", "time"] }
