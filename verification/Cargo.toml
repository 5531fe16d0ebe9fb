[package]
name = "rapl_lib"
version = "0.1.0"
edition = "2021"
publish = false

[dependencies]
csv = "1"
once_cell = "1"
thiserror = "1"
