[package]
name = "pkgforge"
version = "0.1.0"
edition = "2021"
publish = false

[dependencies]
url = "=2.5.8"
percent-encoding = "=2.3.2"
fast-glob = "=1.1.2"
clap = { version = "=4.6.7", features = ["derive", "env"] }
ureq = "=3.5.1"
zsync-rs = "=0.3.0"
libc = "=0.2.191"
semver = "1"
