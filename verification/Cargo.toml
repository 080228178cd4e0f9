[package]
name = "silver_gpu"
version = "0.1.0"
edition = "2021"
publish = false

[dependencies]
sha2 = "0.10"
num_cpus = "1"
thiserror = "1"
serde = { version = "1", features = ["derive"] }
tokio = { version = "1", features = ["sync"] }
