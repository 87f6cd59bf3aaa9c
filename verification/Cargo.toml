[package]
name = "boxxy"
version = "0.13.1"
edition = "2021"
publish = false

[dependencies]
anyhow = "=1.0.104"
base64 = "=0.13.1"
bufstream = "=0.1.4"
caps = "0.5"
clap = { version = "=3.2.25", features = ["derive"] }
close_fds = "=0.3.2"
errno = "=0.2.8"
futures-util = "0.3"
libc = "=0.2.191"
libflate = "=1.4.0"
log = "=0.4.34"
nix = "=0.24.3"
regex = "=1.13.1"
reqwest = { version = "0.11", default-features = false, features = ["rustls-tls", "stream"] }
rustls = { version = "=0.20.9", features = ["dangerous_configuration"] }
rustyline = "=9.1.2"
serde = { version = "=1.0.229", features = ["derive"] }
serde_json = "=1.0.154"
sha2 = "=0.10.9"
tar = "=0.4.46"
tokio = { version = "1", features = ["rt", "fs", "io-util", "macros"] }
