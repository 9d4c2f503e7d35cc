[package]
name = "palindrome_policy"
version = "0.1.0"
edition = "2021"
publish = false

[dependencies]
k8s-openapi = { version = "=0.28.0", default-features = false, features = ["std", "v1_32"] }
kubewarden-policy-sdk = "=0.17.3"
lazy_static = "=1.5.1"
serde = { version = "=1.0.229", features = ["derive"] }
serde_json = "=1.0.154"
slog = "=2.8.2"
wapc-guest = "=1.2.0"
