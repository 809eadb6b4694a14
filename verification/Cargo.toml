[package]
name = "iced_aksel"
version = "0.1.0"
edition = "2021"
publish = false

[dependencies]
indexmap = "=2.14.2"
rapidhash = "=4.5.1"
lru = { version = "=0.19.0", default-features = false }
iced_core = "=0.14.0"
iced_graphics = { version = "=0.14.0", default-features = false }
lyon = "=1.0.19"
lyon_path = "=1.0.19"
lyon_tessellation = "=1.0.23"
earcutr = "=0.5.0"
ab_glyph = "=0.2.32"
ttf-parser = "=0.25.1"
aksel = "=0.2.0"
derivative = "=2.2.0"
