[package]
name = "jrb"
version = "0.1.0"
edition = "2021"
publish = false

[dependencies]
anyhow = "*"
fnv = "*"
fs_extra = "*"
handlebars = "*"
humantime = "*"
log = "*"
rand = "*"
serde = { version = "*", features = ["derive"] }
serde_json = "*"
serde_yaml = "*"
slugify = "*"
structopt = "*"
url = "*"
uuid = "*"
walkdir = "*"
