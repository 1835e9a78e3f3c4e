[package]
name = "telegramail"
version = "0.1.0"
edition = "2021"
publish = false

[dependencies]
base64 = "0.22"
pgp = "0.14"
rand = "0.8"
smallvec = "1"
lettre = { version = "0.11", default-features = false, features = ["builder", "smtp-transport", "tokio1", "tokio1-native-tls"] }
chrono = "0.4"
keyring = "3"
rusqlite = "0.32"
tokio = { version = "1", features = ["rt", "time", "net", "sync", "macros"] }
async-imap = { version = "0.10", default-features = false, features = ["runtime-tokio"] }
async-native-tls = { version = "0.5", default-features = false, features = ["runtime-tokio"] }
futures-util = "0.3"
log = "0.4"
serde = { version = "1", features = ["derive"] }
url = "2"
