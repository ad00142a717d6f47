[package]
name = "zcashd_phrase"
version = "0.1.0"
edition = "2021"
publish = false

[dependencies]
bip0039 = "=0.12.0"
sapling-crypto = "=0.9.0"
secrecy = "=0.8.0"
sha2 = "=0.10.9"
zcash_keys = { version = "=0.17.0", features = ["sapling", "transparent-inputs"] }
zcash_protocol = "=0.11.0"
zcash_transparent = { version = "=0.11.0", features = ["transparent-inputs"] }
zip32 = "=0.3.0"
