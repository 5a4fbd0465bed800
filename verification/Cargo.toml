[package]
name = "libnet"
version = "0.1.0"
edition = "2021"
publish = false

[dependencies]
base64 = "=0.22.1"
getrandom = "=0.3.4"
libc = "=0.2.191"
log = "=0.4.35"
mio = { version = "=1.2.4", features = ["os-poll", "os-ext", "net"] }
quiche = { version = "=0.24.9", default-features = false }
thiserror = "=2.0.21"
url = "=2.5.8"
