[package]
name = "mpl_inscription"
version = "0.1.0"
edition = "2021"
publish = false

[dependencies]
borsh = "=0.10.4"
mpl-token-metadata = "=5.1.1"
mpl-utils = "=0.4.1"
num-derive = "=0.3.3"
num-traits = "=0.2.19"
serde_json = "=1.0.154"
shank = "=0.4.9"
solana-program = "=2.3.0"
spl-token = "=8.0.0"
thiserror = "=1.0.69"
