[package]
name = "prost_reflect"
version = "0.1.0"
edition = "2021"
publish = false

[dependencies]
prost = "0.13"
prost-types = "0.13"
