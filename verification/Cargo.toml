[package]
name = "cup"
version = "0.1.0"
edition = "2021"
publish = false

[dependencies]
bollard = "0.19"
chrono = { version = "0.4", default-features = false, features = ["std", "clock"] }
chrono-tz = "0.10"
clap = { version = "4", features = ["derive"] }
envy = "0.4"
futures = "0.3"
http-auth = { version = "=0.1.10", default-features = false }
http-link = "=1.0.1"
indicatif = "0.17"
itertools = "0.14"
once_cell = "1"
regex = "=1.13.1"
reqwest = { version = "0.12", default-features = false, features = ["rustls-tls"] }
reqwest-middleware = "0.4"
reqwest-retry = "0.7"
rustc-hash = "2"
serde = { version = "1", features = ["derive"] }
serde_json = "=1.0.154"
termsize = "0.1"
tokio = { version = "1", features = ["macros", "rt-multi-thread", "sync"] }
tokio-cron-scheduler = "0.13"
url = "=2.5.8"
xitca-web = "0.6.2"
