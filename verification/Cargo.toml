[package]
name = "hpx"
version = "0.1.0"
edition = "2021"
publish = false

[dependencies]
bit-set = "0.5"
bytes = "1"
env_logger = "0.9"
futures = "0.3"
hyper = { version = "0.14", features = ["full"] }
log = "0.4"
mick-jaeger = "0.1"
num_cpus = "1"
pin-project = "1"
radix_trie = "0.2"
rand = "0.8"
serde = { version = "1", features = ["derive"] }
serde_json = "1"
structopt = "0.3"
tokio = { version = "1", features = ["full"] }
