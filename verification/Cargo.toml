[package]
name = "adbook"
version = "0.1.0"
edition = "2021"
publish = false

[dependencies]
anyhow = "=1.0.104"
async-std = "=1.13.2"
bincode = "=1.3.3"
chrono = "=0.4.45"
clap = { version = "=4.6.7", features = ["derive"] }
colored = "=3.1.1"
fern = { version = "=0.7.1", features = ["colored"] }
futures = "=0.3.34"
handlebars = "=6.4.4"
indicatif = "=0.18.6"
log = "=0.4.34"
ron = "=0.12.2"
rprompt = "=2.2.0"
serde = { version = "=1.0.229", features = ["derive"] }
thiserror = "=2.0.21"
