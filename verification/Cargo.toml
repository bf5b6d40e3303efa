[package]
name = "librelaws"
version = "0.1.0"
edition = "2021"
publish = false

[dependencies]
chrono = "0.4"
clap = "4"
failure = "0.1"
futures = "0.3"
git2 = { version = "*", default-features = false }
glob = "0.3"
libxml = "*"
libxslt = "*"
log = "0.4"
regex = "1"
reqwest = { version = "0.12", default-features = false, features = ["cookies"] }
tempfile = "3"
tokio = { version = "1", features = ["rt"] }
url = "2"
zip = { version = "0.6", default-features = false, features = ["deflate"] }
