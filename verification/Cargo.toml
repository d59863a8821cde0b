[package]
name = "hex_ingest"
version = "0.1.0"
edition = "2021"
publish = false

[dependencies]
erl_tokenize = "*"
sha2 = "*"
tar = "*"
