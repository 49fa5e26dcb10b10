[package]
name = "idioms"
version = "0.1.0"
edition = "2021"
publish = false

[dependencies]
regex = "=1.13.1"
rand = "=0.8.8"
chrono = { version = "=0.4.45", default-features = false, features = ["std", "serde"] }
log = { version = "=0.4.34", features = ["std"] }
sha3 = "=0.10.9"
base64ct = { version = "=1.8.3", features = ["alloc"] }
argon2 = "=0.5.3"
serde_json = "=1.0.154"
im = "=15.1.0"
once_cell = "=1.21.4"
serde = { version = "=1.0.229", features = ["derive"] }
serde_yaml = "=0.9.34"
toml = "=0.8.23"
url = { version = "=2.5.8", features = ["serde"] }
clap = { version = "=4.6.7", features = ["derive"] }
config = { version = "=0.14.1", default-features = false, features = ["toml", "json", "convert-case"] }
smart-default = "=0.7.1"
crossbeam-channel = "=0.5.17"
num_cpus = "=1.17.0"
image = { version = "=0.24.9", default-features = false, features = ["jpeg", "png"] }
reqwest = { version = "=0.11.27", default-features = false, features = ["blocking"] }
tokio = { version = "=1.54.1", features = ["rt-multi-thread", "fs", "io-util", "macros"] }
futures = "=0.3.34"
tokio-stream = { version = "=0.1.19", features = ["io-util"] }
diesel = { version = "=2.1.6", default-features = false, features = ["postgres_backend", "uuid"] }
diesel-async = { version = "=0.4.1", features = ["postgres"] }
uuid = { version = "=1.29.0", features = ["v4"] }
dotenv = "=0.15.0"
