[package]
name = "docker-control"
version = "2.0.0"
edition = "2021"
publish = false

[dependencies]
anyhow = "1"
base64 = "0.22"
bollard = "*"
chrono = "0.4"
clap = { version = "4", features = ["derive"] }
daemonize = "0.5"
directories = "*"
fs_extra = "1"
get_if_addrs = "0.5"
git2 = "*"
hmac = "0.12"
inquire = "*"
libc = "0.2"
reqwest = { version = "0.12", default-features = false, features = ["json", "rustls-tls"] }
rhai = "1"
serde = { version = "1", features = ["derive"] }
serde_json = "1"
sha1 = "0.10"
sha2 = "0.10"
tokio = { version = "1", features = ["full"] }
walkdir = "2"

[dev-dependencies]
tempfile = "3"
