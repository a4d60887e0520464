[package]
name = "task_dispatch"
version = "0.1.0"
edition = "2021"
publish = false

[dependencies]
rand = "*"
rand_chacha = "*"
rayon = "*"
serde = { version = "*", features = ["derive"] }
toml = "*"
