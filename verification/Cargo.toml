[package]
name = "ironclad"
version = "0.1.0"
edition = "2021"
publish = false

[dependencies]
glob = "=0.3.4"
toml = "=1.1.8"
serde = { version = "=1.0.229", features = ["derive"] }
erl_parse = "=0.0.8"
erl_pp = "=0.1.4"
erl_tokenize = "=0.3.9"
trackable = "=0.2.24"
