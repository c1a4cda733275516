[package]
name = "wsts_blueprint"
version = "0.1.0"
edition = "2021"
publish = false

[dependencies]
wsts = { version = "=9.2.0", default-features = false }
p256k1 = { version = "=7.1.0", default-features = false }
frost-secp256k1-tr = "=2.1.0"
frost-core = "=2.2.0"
k256 = "=0.14.0"
hex = "=0.4.3"
rand = "=0.8.8"
bincode = "=1.3.3"
hashbrown = "=0.14.5"
