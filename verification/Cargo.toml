[package]
name = "tj"
version = "0.1.0"
edition = "2021"
publish = false

[dependencies]
blake3 = "1"
color-eyre = "0.6"
crossterm = "0.29"
fuzzy-matcher = "0.3"
lofty = "*"
ratatui = "*"
rodio = "*"
serde = { version = "1", features = ["derive"] }
serde_json = "1"
soundtouch = "*"
stratum-dsp = "*"
symphonia = { version = "0.5", features = ["all"] }
toml = "*"
