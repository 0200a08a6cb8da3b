[package]
name = "geography_codec"
version = "0.1.0"
edition = "2021"
publish = false

[dependencies]
diesel = { version = "*", default-features = false, features = ["postgres_backend"] }
postgis = "*"
