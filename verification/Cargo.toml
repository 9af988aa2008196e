[package]
name = "megamaid"
version = "0.1.0"
edition = "2021"
publish = false

[dependencies]
chrono = "*"
num_cpus = "*"
rayon = "*"
trash = "*"
uuid = { version = "*", features = ["v4"] }
walkdir = "*"
