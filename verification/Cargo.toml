[package]
name = "link-p2p"
version = "0.4.1"
edition = "2021"
publish = false

[dependencies]
anyhow = "=1.0.104"
argon2 = { version = "=0.6.0", default-features = false, features = ["alloc", "password-hash"] }
blake3 = { version = "=1.8.7", default-features = false }
chacha20poly1305 = { version = "=0.11.0", default-features = false, features = ["alloc"] }
clap = { version = "=4.6.7", default-features = false, features = ["std", "help", "usage", "error-context", "derive", "env", "string"] }
clap_complete = { version = "=4.6.11", features = ["unstable-dynamic"] }
console = { version = "=0.16.6", default-features = false, features = ["std"] }
fslock = "=0.2.1"
getrandom = "=0.4.3"
iroh = { version = "=1.4.1", default-features = false, features = ["tls-ring"] }
noq-proto = { version = "=1.4.0", default-features = false }
rustix = { version = "=1.1.6", features = ["process"] }
serde = { version = "=1.0.229", features = ["derive"] }
serde_json = "=1.0.154"
tokio = { version = "=1.54.1", features = ["rt-multi-thread", "macros", "net", "io-util", "io-std", "time", "sync", "signal", "process", "fs"] }
toml = { version = "=0.9.12", default-features = false, features = ["parse", "display", "serde", "std"] }
tracing = { version = "=0.1.44", default-features = false, features = ["std"] }
tracing-subscriber = { version = "=0.3.23", default-features = false, features = ["env-filter", "fmt"] }
tun2 = { version = "=4.0.0", features = ["async"] }
zeroize = "=1.9.1"
