[package]
name = "dex_cfg"
version = "0.1.0"
edition = "2021"
publish = false

[dependencies]
axmldecoder = "*"
clap = { version = "4", features = ["derive"] }
dex = "*"
indicatif = { version = "*", features = ["rayon"] }
num_cpus = "1"
rayon = "1"
serde = { version = "1", features = ["derive"] }
zip = "*"
