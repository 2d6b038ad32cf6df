[package]
name = "lfm_cmd"
version = "0.1.0"
edition = "2021"
publish = false

[dependencies]
clap = { version = "*", features = ["derive"] }
crossbeam-channel = "*"
encoding_rs = "*"
llama-cpp-2 = "*"
llama-cpp-sys-2 = "*"
serde = { version = "*", features = ["derive"] }
serde_json = "*"
