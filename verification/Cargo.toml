[package]
name = "rfvp_hosted_provider"
version = "0.5.0"
edition = "2021"
publish = false

[dependencies]
encoding_rs = "=0.8.44"
sha2 = "=0.10.9"
serde = { version = "=1.0.229", features = ["derive"] }
serde_json = "=1.0.154"
postcard = { version = "=1.1.3", features = ["alloc"] }
bincode = "=1.3.3"
thiserror = "=1.0.69"
tracing = "=0.1.44"
wmv-decoder = "=0.2.0"
na_mpeg2_decoder = "=0.1.0"
