[package]
name = "tftp_server"
version = "0.1.0"
edition = "2021"
publish = false

[dependencies]
clap = "2"
env_logger = "0.9"
log = "0.4"
mio = "0.6"
mio-more = "*"
