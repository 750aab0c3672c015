[package]
name = "nettools"
version = "0.1.0"
edition = "2021"
publish = false

[dependencies]
netlink-packet-core = "=0.7.0"
netlink-packet-route = "0.20.1"
netlink-sys = "=0.8.8"
nix = "=0.26.4"
socket2 = "=0.5.10"
