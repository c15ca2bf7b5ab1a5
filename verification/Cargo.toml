[package]
name = "luminous"
version = "0.1.0"
edition = "2021"
publish = false

[dependencies]
image = "=0.25.10"
csscolorparser = "=0.9.0"
num_cpus = "=1.17.0"
sha2 = "*"
clap = { version = "=4.6.7", features = ["derive"] }
serde = { version = "=1.0.229", features = ["derive"] }
serde_json = "=1.0.151"
toml = "=1.1.6"
directories = "=6.0.0"
walkdir = "=2.5.0"
threadpool = "=1.8.1"
shared_memory = "=0.12.4"
dlopen2 = "=0.9.0"
log = "=0.4.34"
env_logger = "=0.11.11"
