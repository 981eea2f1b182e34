[package]
name = "zcash_warp"
version = "0.1.0"
edition = "2021"
publish = false

[dependencies]
hex = "=0.4.3"
zcash_protocol = { version = "=0.11.0", features = ["local-consensus"] }
zcash_address = "=0.14.0"
zcash_primitives = "=0.31.0"
zcash_keys = { version = "=0.17.0", features = ["sapling", "orchard", "transparent-inputs"] }
zcash_transparent = { version = "=0.11.0", features = ["transparent-inputs"] }
sapling-crypto = "=0.9.0"
orchard = "=0.16.0"
incrementalmerkletree = "=0.9.0"
zip32 = "=0.3.0"
zip321 = "=0.10.0"
zcash_note_encryption = "=0.5.1"
secp256k1 = "=0.33.1"
rand = "=0.8.8"
raptorq = "=2.0.1"
bech32 = "=0.11.1"
base58check = "=0.1.0"
tiny-bip39 = "=1.0.0"
bip32 = { version = "=0.6.0", default-features = false, features = ["alloc"] }
sha2 = "=0.10.9"
ripemd = "=0.1.3"
flate2 = "=1.1.10"
bincode = "=1.3.3"
serde = { version = "=1.0.229", features = ["derive"] }
serde_json = "=1.0.154"
anyhow = "=1.0.104"
thiserror = "=1.0.69"
rusqlite = { version = "=0.31.0", features = ["bundled"] }
clap = { version = "=4.6.7", features = ["derive"] }
