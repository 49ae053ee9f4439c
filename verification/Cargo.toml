[package]
name = "skv-analyzer"
version = "0.1.0"
edition = "2021"
publish = false

[dependencies]
anyhow = "1"
base64 = "0.22"
clap = { version = "4", features = ["derive"] }
ed25519-dalek = "2"
either = "1"
hex = "0.4"
llvm-ir = { version = "*", features = ["llvm-19"] }
sha2 = "0.10"
z3 = "*"
