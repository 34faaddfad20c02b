[package]
name = "rdit"
version = "0.1.0"
edition = "2021"
publish = false

[dependencies]
gapbuffer = "*"
unicode-width = "*"
regex = "*"
rustbox = "*"
docopt = "*"
libc = "*"
serde = { version = "1", features = ["derive"] }
serde_json = "*"
mio = { version = "*", features = ["net", "os-poll"] }
uuid = { version = "*", features = ["v4"] }
tempdir = "*"
lazy_static = "*"
