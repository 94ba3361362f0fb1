[package]
name = "gecol"
version = "0.1.0"
edition = "2021"
publish = false

[dependencies]
clap = { version = "=4.6.7", features = ["derive"] }
dirs = "=7.0.0"
image = { version = "=0.25.10", default-features = false, features = ["png", "jpeg"] }
imgref = "=1.12.3"
indicatif = "=0.18.6"
kmeans_colors = { version = "=0.7.1", default-features = false, features = ["palette_color"] }
minijinja = { version = "=2.24.0", features = ["loader"] }
mss_saliency = "=1.1.0"
palette = "=0.7.7"
pareg = "=0.9.1"
serde = { version = "=1.0.229", features = ["derive"] }
termal = "=2.1.2"
thiserror = "=2.0.21"
toml = "=1.2.1"
