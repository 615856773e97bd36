[package]
name = "schablone"
version = "0.2.1"
edition = "2021"
publish = false

[dependencies]
clap = "2"
env_logger = "0.7"
log = "0.4"
serde_json = "1"
snafu = "0.6"
tera = "1"
