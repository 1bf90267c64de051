[package]
name = "saveconfig"
version = "0.1.0"
edition = "2021"
publish = false

[dependencies]
aes-gcm = "*"
anyhow = "*"
base64 = "*"
chrono = "*"
directories = "*"
dirs = "*"
hex = "*"
num_cpus = "*"
once_cell = "*"
rand = "*"
rayon = "*"
serde = { version = "*", features = ["derive"] }
serde_json = "*"
sha2 = "*"
tar = "*"
walkdir = "*"
zstd = "*"
