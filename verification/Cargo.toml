[package]
name = "tar2"
version = "0.1.0"
edition = "2021"
publish = false

[dependencies]
anyhow = "1"
bzip2 = "*"
chrono = "0.4"
clap = { version = "4", features = ["derive"] }
clap-version-flag = "*"
colored = "*"
ctrlc = "3"
dirs = "*"
flate2 = "1"
glob = "0.3"
humansize = "2"
ignore = "0.4"
indicatif = "*"
regex = "1"
serde = { version = "1", features = ["derive"] }
serde_json = "1"
tar = "0.4"
toml = "*"
walkdir = "2"
xz2 = "0.1"
zstd = "*"
