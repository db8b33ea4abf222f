[package]
name = "lab"
version = "0.1.0"
edition = "2021"
publish = false

[dependencies]
clap = { version = "=4.6.7", features = ["derive"] }
lettre = { version = "=0.11.23", default-features = false, features = ["sendmail-transport"] }
log = "=0.4.34"
mail-builder = "=1.0.0"
mailparse = "=0.15.0"
pulldown-cmark = { version = "=0.13.5", default-features = false, features = ["html"] }
redb = "=4.4.0"
snafu = "=0.8.9"
systemd-journal-logger = "=2.2.2"
uuid = { version = "=1.29.0", features = ["v7"] }
