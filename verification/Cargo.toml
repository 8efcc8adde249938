[package]
name = "rtxon"
version = "0.1.0"
edition = "2021"
publish = false

[dependencies]
bvh = "*"
clap = "2"
env_logger = "0.6"
failure = "0.1"
image = { version = "*", default-features = false, features = ["png"] }
log = "0.4"
nalgebra = "*"
num_cpus = "1"
pbr = "1"
rand = "0.6"
raw-cpuid = "*"
scoped_threadpool = "0.1"
