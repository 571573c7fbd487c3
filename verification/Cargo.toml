[package]
name = "proxy_tunnels"
version = "0.1.0"
edition = "2021"
publish = false

[dependencies]
async-trait = "0.1"
base64 = "=0.22.1"
bytes = "=1.12.1"
gotatun = { version = "=0.10.2", features = ["socket"] }
h3 = "=0.0.8"
h3-quinn = "=0.0.10"
http = "=1.5.0"
quinn = { version = "=0.11.12", default-features = false, features = ["runtime-tokio", "rustls-aws-lc-rs"] }
rustls = { version = "=0.23.46", default-features = false, features = ["aws_lc_rs", "std"] }
tokio = { version = "1", features = ["io-util", "macros", "net", "rt", "rt-multi-thread", "sync", "time"] }
tracing = "0.1"
webpki-roots = "=1.0.10"
