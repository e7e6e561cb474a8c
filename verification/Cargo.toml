[package]
name = "ps2-core"
version = "0.1.0"
edition = "2021"
publish = false

[dependencies]
dynasm = "=5.1.0"
dynasmrt = "=5.1.0"
libc = "=0.2.191"
postcard = { version = "=1.1.3", features = ["alloc"] }
serde = { version = "=1.0.229", features = ["derive"] }
windows-sys = { version = "=0.61.2", features = ["Win32_System_Memory"] }
