[package]
name = "qfs"
version = "0.1.0"
edition = "2021"
publish = false

[dependencies]
argon2 = "0.5"
async-trait = "0.1"
bytes = "1"
chacha20poly1305 = "0.10"
mysql = { version = "*", default-features = false, features = ["minimal-rust"] }
postgres = "0.19"
rand = "0.10"
rusqlite = { version = "*", features = ["bundled"] }
serde = { version = "1", features = ["derive"] }
serde_json = "1"
thiserror = "2"
time = { version = "0.3", features = ["parsing", "formatting"] }

[dev-dependencies]
winnow = "0.7"
