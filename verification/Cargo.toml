[package]
name = "streetcad"
version = "0.1.0"
edition = "2021"
publish = false

[dependencies]
geojson = "=0.21.0"
