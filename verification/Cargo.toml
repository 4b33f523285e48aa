[package]
name = "dupdup"
version = "0.1.0"
edition = "2021"
publish = false

[dependencies]
bytesize = "1"
chrono = "0.4"
clap = "2"
md5 = "0.7"
serde_json = "1"
time = "0.1"
walkdir = "2"
