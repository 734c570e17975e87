[package]
name = "zarr_dio"
version = "0.1.0"
edition = "2021"
publish = false

[dependencies]
bytes = "=1.12.1"
clap = { version = "=4.6.7", features = ["derive"] }
ndarray = "=0.16.1"
nix = "=0.29.0"
page_size = "=0.6.0"
rand = "=0.8.8"
zarrs = { version = "0.17", default-features = false, features = ["filesystem"] }
zerocopy = "=0.7.35"
