[package]
name = "gristmill"
version = "0.1.0"
edition = "2021"
publish = false

[dependencies]
console = "0.15"
glam = { version = "0.29", features = ["serde"] }
glyph_brush = "0.7"
miniquad = "0.4"
msgbox = "0.7"
palette = "0.7"
png = "0.17"
serde = { version = "1", features = ["derive"] }
serde_yml = "*"
taffy = "0.7"
tiny-game-loop = "*"
