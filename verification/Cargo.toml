[package]
name = "layaway"
version = "0.1.0"
edition = "2021"
publish = false

[dependencies]
clap = { version = "=4.6.7", features = ["derive"] }
directories-next = "=2.0.0"
eyre = "=0.6.14"
hostname = "=0.3.1"
serde = { version = "=1.0.229", features = ["derive"] }
swayipc = "=3.0.3"
thiserror = "=1.0.69"
toml = "=0.8.23"
