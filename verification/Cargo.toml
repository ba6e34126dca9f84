[package]
name = "universe"
version = "0.1.0"
edition = "2021"
publish = false

[dependencies]
base64 = "0.21"
rsa = "0.9"
bytes = "1"
rand = "0.8"
log = "0.4"
pretty_env_logger = "0.5"
crossbeam-channel = "0.5"
futures-util = "0.3"
tokio = { version = "1", features = ["rt-multi-thread", "macros", "net", "signal", "sync", "time"] }
tokio-tungstenite = { version = "0.20", default-features = false, features = ["handshake"] }
serde = { version = "1", features = ["derive"] }
serde_json = "1"
pcap = "1"
clap = { version = "4", default-features = false, features = ["std", "help", "usage", "error-context"] }
handlebars = { version = "4", default-features = false }
hudsucker = { version = "0.20", default-features = false, features = ["rcgen-ca", "rustls-client"] }
rcgen = "0.11"
rustls-pemfile = "1"
jni = "0.21"
libc = "0.2"
once_cell = "1"
mongodb = { version = "2", default-features = false, features = ["tokio-runtime"] }
rouille = { version = "3", default-features = false }
kcp = "0.5"
