[package]
name = "async-snmp"
version = "0.1.0"
edition = "2021"
publish = false

[dependencies]
bytes = "*"
hmac = "*"
md-5 = "*"
sha1 = "*"
sha2 = "*"
aes = "*"
des = "*"
cfb-mode = "*"
cbc = "*"
tokio = { version = "*", features = ["net", "rt", "rt-multi-thread", "sync", "time", "macros"] }
futures-core = "*"
socket2 = "*"
tracing = "*"
thiserror = "*"
clap = { version = "*", features = ["derive"] }
serde = { version = "*", features = ["derive"] }
serde_json = "*"
