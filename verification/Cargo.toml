[package]
name = "cronchware"
version = "0.1.0"
edition = "2021"
publish = false

[dependencies]
anyhow = "1"
serde = { version = "1", features = ["derive"] }
serde_json = "1"
uuid = { version = "1", features = ["v4"] }
rmp-serde = "1"
syn = { version = "2", features = ["full"] }
quote = "1"
proc-macro2 = "1"
futures-util = "0.3"
once_cell = "1"
paste = "1"
