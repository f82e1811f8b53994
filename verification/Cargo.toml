[package]
name = "geojson"
version = "0.1.0"
edition = "2021"
publish = false

[dependencies]
serde = { version = "1", features = ["derive"] }
serde_json = { version = "1", features = ["preserve_order"] }
geo-types = "0.7"
geo-traits = "*"
thiserror = "*"
log = "0.4"
tinyvec = { version = "1", features = ["alloc"] }
bytemuck = { version = "1", features = ["derive"] }
num-traits = "0.2"
