[package]
name = "nebtools"
version = "0.1.0"
edition = "2021"
publish = false

[dependencies]
xml-rs = "0.8"
metrohash = "1"
glob = "0.3"
rand = "0.9"
serde = { version = "1", features = ["derive"] }
quick-xml = { version = "*", features = ["serialize"] }
toml = "0.8"
directories = "*"
steamlocate = "2"
clap = { version = "4", features = ["derive"] }
color-eyre = "0.6"
tracing = "0.1"
tracing-subscriber = "0.3"
