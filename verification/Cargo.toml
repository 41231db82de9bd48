[package]
name = "cupslib"
version = "0.1.0"
edition = "2021"
publish = false

[dependencies]
base32 = "*"
sha3 = "*"
reqwest = "*"
url = "*"
tokio = { version = "1", features = ["full"] }
clap = "2"
chrono = "*"
prettytable-rs = "*"
rpassword = "*"
futures = "0.3"
pancurses = "*"
failure = "0.1"
