[package]
name = "picmyweb"
version = "0.1.0"
edition = "2021"
publish = false

[dependencies]
clap = "=4.6.7"
csv = "=1.4.0"
futures = "=0.3.34"
headless_chrome = "=0.9.0"
indicatif = "=0.18.6"
log = "=0.4.34"
tokio = { version = "=1.53.2", features = ["sync", "rt", "rt-multi-thread", "macros"] }
