[package]
name = "rdroidtest"
version = "0.1.0"
edition = "2021"
publish = false

[dependencies]
libtest-mimic = "=0.8.2"
linkme = "=0.3.37"
log = "=0.4.34"
