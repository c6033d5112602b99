[package]
name = "berkeley_socket"
version = "0.1.0"
edition = "2021"
publish = false

[dependencies]
smoltcp = "0.12"
hashbrown = "*"
linux-errnos = "*"
libc = "*"
log = "*"
env_logger = "*"
spin = "*"
scopeguard = "*"
lazy_static = "*"
