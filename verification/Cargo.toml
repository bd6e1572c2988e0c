[package]
name = "mdblog"
version = "0.1.0"
edition = "2021"
publish = false

[dependencies]
chrono = "0.4"
config = "0.8"
failure = "0.1"
futures = "0.1"
glob = "0.3"
hyper = "0.11"
log = "0.4"
mime_guess = "2"
notify = "4"
open = "1"
percent-encoding = "1"
pulldown-cmark = "*"
serde = { version = "1", features = ["derive"] }
serde_derive = "1"
serde_json = "1"
shellexpand = "*"
tera = "1"
toml = "0.4"
walkdir = "2"
