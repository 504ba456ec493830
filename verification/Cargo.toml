[package]
name = "kappa"
version = "0.1.0"
edition = "2021"
publish = false

[dependencies]
http = "=1.5.0"
x509-parser = "=0.16.0"
html-escape = "=0.2.15"
tokio = { version = "=1.54.1", features = ["full"] }
clap = { version = "=4.6.7", features = ["derive"] }
log = "=0.4.35"
hyper = { version = "=1.12.0", features = ["server", "http1", "http2"] }
hyper-util = { version = "=0.1.21", features = ["server-auto", "tokio"] }
http-body-util = "=0.1.5"
bytes = "=1.12.1"
tonic = { version = "=0.12.3", default-features = false }
futures = "=0.3.34"
disk = "*"
