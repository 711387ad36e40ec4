[package]
name = "oxy"
version = "0.1.0"
edition = "2021"
publish = false

[dependencies]
data-encoding = "*"
ring = "*"
toml = "*"
serde = { version = "*", features = ["derive"] }
shlex = "*"
libsodium-sys = "*"
snow = "*"
transportation = "*"
mio = "*"
parking_lot = "*"
clap = "*"
dirs = "*"
termion = "*"
nix = "*"
libc = "*"
byteorder = "*"
textwrap = "*"
