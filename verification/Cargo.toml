[package]
name = "fleetos_guest_init"
version = "0.1.0"
edition = "2021"
publish = false

[dependencies]
libc = "0.2"

[dev-dependencies]
postcard = { version = "1", features = ["alloc"] }
serde = "1"
