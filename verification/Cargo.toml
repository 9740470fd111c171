[package]
name = "libvmod-lambda"
version = "0.1.0"
edition = "2021"
publish = false

[dependencies]
aws-config = "=1.13.0"
aws-credential-types = "=1.3.1"
aws-sdk-lambda = "=1.156.0"
aws-types = "=1.7.0"
base64 = "=0.22.1"
bytes = "=1.12.1"
futures = "=0.3.34"
serde = { version = "=1.0.229", features = ["derive"] }
serde_json = "=1.0.154"
tokio = { version = "=1.54.1", features = ["rt-multi-thread", "sync", "time"] }
url = "=2.5.8"
varnish = "=0.5.5"
