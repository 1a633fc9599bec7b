[package]
name = "lake_berg"
version = "0.1.0"
edition = "2021"
publish = false

[dependencies]
arrow-array = "57"
arrow-schema = "57"
async-trait = "0.1"
iceberg = "=0.8.0"
iceberg-catalog-rest = "=0.8.0"
parquet = "57"
tracing = "0.1"
url = "=2.5.8"
uuid = { version = "1", features = ["v7"] }
