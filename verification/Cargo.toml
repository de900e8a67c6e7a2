[package]
name = "dpdk"
version = "0.1.0"
edition = "2021"
publish = false

[dependencies]
anyhow = "*"
arrayvec = "*"
crossbeam = "*"
log = "*"
simple_logger = "*"
thiserror = "*"
