[package]
name = "osm2parquet"
version = "0.1.0"
edition = "2021"
publish = false

[dependencies]
parquet = { version = "*", default-features = false, features = ["snap"] }
osm = "*"

[dev-dependencies]
bytes = "*"
