[package]
name = "mbp_channel"
version = "0.1.0"
edition = "2021"
publish = false

[dependencies]
alloy = { version = "=1.0.42", default-features = false, features = ["std", "contract", "provider-http", "reqwest", "signer-local"] }
base64 = "=0.22.1"
bls_bulletproofs = "=1.1.1"
blst = "=0.3.17"
blstrs = "=0.6.2"
bytes = "1"
clap = { version = "4", default-features = false, features = ["std", "derive", "help", "usage", "error-context"] }
ff = "=0.12.1"
group = "=0.12.1"
hex = "=0.4.3"
merlin = "=3.0.0"
rand = "=0.8.8"
# Held back: later releases bring a fourth version of the ark crates.
ruint = { version = "=1.17.0", default-features = false }
serde = { version = "1", features = ["derive"] }
serde_json = "1"
# Held back: later releases bring several versions of schemars.
serde_with = { version = "=3.12.0", default-features = false }
sha2 = "=0.10.9"
tokio = { version = "1", default-features = false, features = ["net", "io-util", "io-std", "macros", "rt-multi-thread", "sync", "time"] }
toml_edit = { version = "0.25", default-features = false, features = ["parse", "serde"] }
uuid = { version = "=1.11.1", features = ["v4"] }
zeromq = { version = "0.4", default-features = false, features = ["tokio-runtime", "tcp-transport"] }
