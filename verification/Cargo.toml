[package]
name = "pbe"
version = "0.1.0"
edition = "2021"
publish = false

[dependencies]
url = "=2.5.8"
actix-files = "=0.6.10"
actix-web = "=4.15.0"
anyhow = "=1.0.104"
async-watcher = "=0.4.0"
chrono = "=0.4.45"
log = "=0.4.34"
notify = "=8.2.0"
pulldown-cmark = "=0.9.6"
rss = "=2.1.2"
serde = { version = "=1.0.229", features = ["derive"] }
serde_yaml = "=0.9.34"
simple-log = "=2.4.0"
syntect = { version = "=5.3.0", default-features = false, features = ["default-syntaxes", "html", "parsing", "regex-fancy", "yaml-load"] }
tera = { version = "=1.20.1", default-features = false }
thiserror = "=1.0.69"
tokio = { version = "=1.53.2", features = ["rt", "macros", "sync", "time"] }
