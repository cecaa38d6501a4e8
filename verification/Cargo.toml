[package]
name = "simple_beatmap_analyzer"
version = "0.9.3"
edition = "2021"
publish = false

[dependencies]
rosu-pp = "0.9"
serde = { version = "1", features = ["derive"] }
bincode = "1"
csv = "1"
indicatif = "0.17"
jwalk = "0.8"
rayon = "1"
md-5 = "0.10"
