[package]
name = "mlx"
version = "0.1.0"
edition = "2021"
publish = false

[dependencies]
indexmap = "=2.14.2"
thiserror = "=2.0.21"
half = "=2.7.1"
num-complex = "=0.4.6"
walkdir = "=2.5.0"
cmake = "=0.1.58"
bindgen = "=0.73.2"
syn = { version = "=2.0.119", features = ["full"] }
quote = "=1.0.47"
proc-macro2 = "=1.0.107"
