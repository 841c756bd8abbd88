[package]
name = "ntdsextract2"
version = "0.1.0"
edition = "2021"
publish = false

[dependencies]
hex = "*"
base64 = "*"
regex = "*"
bodyfile = "*"
libesedb = "*"
clap = { version = "*", features = ["derive"] }
clap-verbosity-flag = "*"
log = "*"
simplelog = "*"
csv = "*"
serde = { version = "*", features = ["derive"] }
serde_json = "*"
term-table = "*"
termsize = "*"
anyhow = "*"
