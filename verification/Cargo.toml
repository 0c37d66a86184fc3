[package]
name = "avro_to_arrow"
version = "0.1.0"
edition = "2021"
publish = false

[dependencies]
avro-rs = "*"
arrow-array = "*"
arrow-schema = "*"
serde_json = "*"
