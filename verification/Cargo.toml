[package]
name = "mail_sync"
version = "0.1.0"
edition = "2021"
publish = false

[dependencies]
anyhow = "=1.0.104"
atty = "=0.2.14"
clap = { version = "=4.6.7", features = ["derive"] }
indicatif = "=0.17.11"
log = "=0.4.34"
once_cell = "=1.21.4"
