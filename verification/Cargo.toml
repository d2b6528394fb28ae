[package]
name = "terrain_mesher"
version = "0.1.0"
edition = "2021"
publish = false

[dependencies]
vek = "*"
hashbrown = "*"
serde = { version = "1", features = ["derive"] }
slotmap = "*"
enum-map = "*"
specs = { version = "*", default-features = false }
