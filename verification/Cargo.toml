[package]
name = "tarpc"
version = "0.1.0"
edition = "2021"
publish = false

[dependencies]
rand = "0.8"
byteorder = "1"
humantime = "2"
futures = "0.3"
tokio = { version = "1", features = ["sync", "time", "rt", "net", "io-util"] }
tokio-util = { version = "0.7", features = ["time", "codec"] }
tracing = "0.1"
opentelemetry = "0.21"
tracing-opentelemetry = "0.22"
mio = { version = "0.8", features = ["os-poll", "net"] }
bincode = "1"
serde = { version = "1", features = ["derive"] }
fnv = "1"
thiserror = "1"
anyhow = "1"
pin-project = "1"
slab = "0.4"

[dev-dependencies]
assert_matches = "1"
