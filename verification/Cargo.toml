[package]
name = "slurm_jobs"
version = "0.1.0"
edition = "2021"

[dependencies]
uuid = { version = "*", features = ["v4"] }
chrono = "*"
log = "*"
