[package]
name = "running-process"
version = "0.1.0"
edition = "2021"
publish = false

[dependencies]
blake3 = { version = "=1.8.7", default-features = false, features = ["std", "pure", "mmap", "rayon"] }
bytes = "=1.12.1"
futures-util = { version = "=0.3.34", features = ["sink"] }
getrandom = "=0.3.4"
interprocess = "=2.4.7"
libc = "0.2"
prost = { version = "=0.14.4", default-features = false, features = ["std"] }
serde = { version = "1", features = ["derive"] }
serde_json = "1"
sysinfo = "0.36"
thiserror = "2"
tokio = { version = "=1.54.1", features = ["rt", "rt-multi-thread", "macros", "io-util", "sync", "time", "net"] }
tokio-util = { version = "=0.7.20", features = ["codec"] }

[dev-dependencies]
tempfile = "3"
