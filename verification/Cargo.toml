[package]
name = "plant_tower_rs"
version = "0.1.0"
edition = "2021"
publish = false

[dependencies]
json = "*"
anyhow = "*"
log = "*"
esp-idf-hal = "*"
esp-idf-svc = "*"
toml-cfg = "*"
strum_macros = "*"
