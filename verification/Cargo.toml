[package]
name = "blob_codec"
version = "0.1.0"
edition = "2021"
publish = false

[dependencies]
alloy = { version = "1", default-features = false, features = ["std", "consensus", "eips", "kzg"] }
alloy-rlp = "0.3"
clap = { version = "4", features = ["derive", "env"] }
dotenvy = "0.15"
eyre = "0.6"
flate2 = "1"
futures = "0.3"
thiserror = "2"
tokio = { version = "1", features = ["macros", "rt-multi-thread", "time"] }
