[package]
name = "mail_entity"
version = "0.1.0"
edition = "2021"
publish = false

[dependencies]
ammonia = "*"
anyhow = "*"
chrono = "*"
html-escape = "*"
imap = { version = "*", default-features = false }
imap-proto = "*"
lettre = { version = "*", default-features = false, features = ["builder"] }
mailparse = "*"
regex = "*"
rfc2047-decoder = "*"
shellexpand = "*"
tree_magic = "*"
uuid = { version = "*", features = ["v4"] }
