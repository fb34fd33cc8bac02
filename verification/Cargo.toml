[package]
name = "gapix_core"
version = "0.1.0"
edition = "2021"
publish = false

[dependencies]
anyhow = "1"
chrono = "0.4"
clap = { version = "4", features = ["derive"] }
directories = "*"
env_logger = "*"
fitparser = "*"
geo = "0.29"
log = "0.4"
quick-xml = "0.37"
rayon = "1"
