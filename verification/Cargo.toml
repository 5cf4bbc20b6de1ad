[package]
name = "ic_asset"
version = "0.1.0"
edition = "2021"
publish = false

[dependencies]
anyhow = "=1.0.104"
candid = "=0.10.39"
clap = { version = "=4.6.7", features = ["derive"] }
console = "=0.16.6"
flate2 = "=1.1.10"
fn-error-context = "=0.2.1"
futures = "=0.3.34"
hex = "=0.4.3"
ic-types = "=0.3.0"
ic-utils = "=0.49.3"
mime = "=0.3.17"
mime_guess = "=2.0.5"
serde = { version = "1", features = ["derive"] }
serde_bytes = "0.11"
sha2 = "=0.10.9"
slog = "=2.8.2"
tokio = { version = "=1.54.1", features = ["rt-multi-thread", "sync"] }
url = "=2.5.8"
