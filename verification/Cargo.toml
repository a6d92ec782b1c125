[package]
name = "onionroute_gateway"
version = "0.1.0"
edition = "2021"
publish = false

[dependencies]
sha2 = "0.10"
getrandom = "0.2"
ring = "0.17"
prost = "0.13"
tokio = { version = "1", features = ["rt", "rt-multi-thread", "macros", "io-util", "net", "time", "sync"] }
rustls = { version = "0.23", default-features = false, features = ["ring", "std"] }
tokio-rustls = { version = "0.26", default-features = false, features = ["ring"] }
rustls-pemfile = "2"
serde = { version = "1", features = ["derive"] }
serde_json = "1"
ipnet = { version = "2", features = ["serde"] }
thiserror = "1"
async-trait = "0.1"
