[package]
name = "libtcp"
version = "0.1.0"
edition = "2021"
publish = false

[dependencies]
etherparse = "=0.9.0"
bytes = "=0.4.12"
futures = "=0.1.31"
tokio = "=0.1.22"
tun = { version = "=0.4.4", features = ["mio"] }
libc = "0.2"
