[package]
name = "ring"
version = "0.1.0"
edition = "2021"
publish = false

[dependencies]
p256 = { version = "0.13", default-features = false, features = ["arithmetic"] }
p384 = { version = "0.13", default-features = false, features = ["arithmetic"] }
sha1 = "0.10"
sha2 = "0.10"
untrusted = "0.9"

[dev-dependencies]
hex = "0.4"
