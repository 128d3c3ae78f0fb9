[package]
name = "filerank"
version = "0.1.0"
edition = "2021"
publish = false

[dependencies]
chrono = "*"
colour = "*"
glob = "*"
users = "*"
walkdir = "*"
