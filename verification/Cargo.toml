[package]
name = "naia_core"
version = "0.1.0"
edition = "2021"
publish = false

[dependencies]
byteorder = "1"
slotmap = "1"
smol = "1"
futures-util = { version = "0.3", features = ["sink"] }
syn = { version = "1", features = ["full"] }
quote = "1"
proc-macro2 = "1"
serde = "1"
