[package]
name = "echo_reactor"
version = "0.1.0"
edition = "2021"
publish = false

[dependencies]
bytes = "=1.12.1"
mio = { version = "=1.2.4", features = ["os-poll", "net"] }
clap = "=4.6.7"
log = "=0.4.34"
env_logger = "=0.10.2"
pretty_env_logger = "=0.5.0"
rand = "=0.8.8"
crossbeam = "=0.8.5"
failure = "0.1"
ocl = "0.19"
