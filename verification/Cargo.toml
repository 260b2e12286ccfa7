[package]
name = "gtfs_tool"
version = "0.1.0"
edition = "2021"
publish = false

[dependencies]
zip = "*"
clap = { version = "*", features = ["derive"] }
serde = { version = "*", features = ["derive"] }
serde_repr = "*"
geojson = "*"
geo-types = "*"
petgraph = "*"
