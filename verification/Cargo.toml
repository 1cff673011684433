[package]
name = "cmd_queue"
version = "0.1.0"
edition = "2021"
publish = false

[dependencies]
actix-web = "=4.18.1"
askama = "=0.12.1"
base64 = "=0.13.1"
camino = "=1.2.6"
chacha20poly1305 = "=0.9.1"
clap = { version = "=4.6.7", features = ["derive", "env"] }
clap_complete = "4"
cli-table = "=0.4.9"
crossbeam = "=0.8.5"
csv = "=1.4.0"
dashmap = "=5.5.3"
error-stack = "=0.4.1"
humantime = "=2.4.0"
indicatif = "=0.17.11"
nanoid = "=0.4.0"
pickledb = { version = "=0.5.1", features = ["json", "bincode"] }
rand = "=0.8.8"
rand_chacha = "=0.3.1"
rayon = "=1.12.0"
regex = "=1.13.1"
reqwest = { version = "=0.11.27", default-features = false, features = ["blocking", "json"] }
rmp-serde = "=1.3.1"
serde = { version = "=1.0.229", features = ["derive"] }
sha2 = "=0.10.9"
sqlx = { version = "=0.7.4", default-features = false, features = ["sqlite", "runtime-tokio"] }
thiserror = "=1.0.69"
tokio = { version = "=1.54.1", features = ["rt-multi-thread", "macros", "time"] }
tracing = "=0.1.44"
tracing-subscriber = "=0.3.23"
walkdir = "=2.5.0"
