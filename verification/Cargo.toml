[package]
name = "spike_costacando"
version = "0.1.0"
edition = "2021"
publish = false

[dependencies]
chrono = "0.4"
lazy_static = "1.4"
r2d2_postgres = "0.18"
rand = "0.8"
