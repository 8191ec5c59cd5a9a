[package]
name = "rsmgclient"
version = "0.1.0"
edition = "2021"
publish = false

[dependencies]
jiff = "0.2"
thiserror = "2"
chrono = "0.4"
