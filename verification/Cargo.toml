[package]
name = "softnet"
version = "0.1.0"
edition = "2021"
publish = false

[dependencies]
anyhow = "1"
clap = { version = "4", features = ["derive"] }
dhcproto = "*"
ip_network = "*"
ipnet = "2"
libc = "0.2"
log = "0.4"
mac_address = "1"
nix = { version = "*", features = ["signal", "socket"] }
num_enum = "*"
polling = "3"
prefix-trie = "*"
privdrop = "*"
sentry = { version = "*", default-features = false }
smoltcp = "*"
system-configuration = "*"
thiserror = "*"
uzers = "*"
vmnet = "*"
