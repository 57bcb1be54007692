[package]
name = "geogebra_types"
version = "0.1.0"
edition = "2021"
publish = false

[dependencies]
zip = "*"

[dev-dependencies]
