[package]
name = "cursor_kit"
version = "0.1.0"
edition = "2021"
publish = false

[dependencies]
byteorder = "1"
indexmap = "2"
png = "*"
serde = { version = "1", features = ["derive"] }
serde_repr = "*"
thiserror = "*"
num_enum = "*"
