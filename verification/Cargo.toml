[package]
name = "polygon_clipping"
version = "0.1.0"
edition = "2021"
publish = false

[dependencies]
num_cpus = "*"
rustvision = "*"
thread-pool = "*"
