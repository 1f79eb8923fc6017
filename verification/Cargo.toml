[package]
name = "swarmalators"
version = "0.1.0"
edition = "2021"
publish = false

[dependencies]
libm = "=0.2.16"
const_soft_float = "=0.1.4"
num-traits = "=0.2.19"
