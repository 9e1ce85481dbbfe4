[package]
name = "file_tidy"
version = "0.1.0"
edition = "2021"
publish = false

[dependencies]
clap = { version = "4", features = ["derive"] }
crossbeam-channel = "0.5"
fs_extra = "1"
num_cpus = "1"
threadpool = "1"
walkdir = "2"
