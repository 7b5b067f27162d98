[package]
name = "mix"
version = "0.1.0"
edition = "2021"
publish = false

[dependencies]
regex = "1"
semver = "1"
url = "2"
serde = { version = "1", features = ["derive"] }
serde_json = "1"
serde_yaml = "0.9"
tokio = { version = "1", features = ["fs", "io-std", "io-util", "macros", "process", "rt", "sync", "time"] }
futures-util = "0.3"
async-trait = "0.1"
yansi = "0.5"
codespan-reporting = "0.11"
ubyte = "0.10"
ascii = "1"
reqwest = { version = "0.11", default-features = false, features = ["stream"] }
command-extra = "*"
path = "*"
