[package]
name = "coman"
version = "0.1.0"
edition = "2021"
publish = false

[dependencies]
base64 = "=0.22.1"
regex = "=1.13.1"
tera = { version = "=1.20.1", default-features = false }
clap = { version = "=4.6.7", features = ["derive"] }
clap_complete = "4"
serde = { version = "=1.0.229", features = ["derive"] }
serde_json = "=1.0.154"
toml = "=1.1.8"
toml_edit = "=0.25.17"
config = { version = "0.15", default-features = false, features = ["toml"] }
directories = "=6.0.0"
dirs = "=7.0.0"
chrono = "=0.4.45"
itertools = "=0.15.0"
bytesize = "=2.7.0"
color-eyre = "=0.6.5"
tokio = { version = "=1.54.1", features = ["rt-multi-thread", "macros", "time", "fs", "io-util"] }
reqwest = { version = "=0.12.28", default-features = false, features = ["json", "rustls-tls"] }
