[package]
name = "togo_vr"
version = "0.1.0"
edition = "2021"
publish = false

[dependencies]
async-trait = "0.1"
bytes = "1"
savefile = "*"
sled = "0.34"
thiserror = "1"
