[package]
name = "blowtorch"
version = "0.1.0"
edition = "2021"
publish = false

[dependencies]
ndarray = "=0.15.6"
ndarray-npy = "=0.8.1"
convolutions-rs = "=0.3.4"
num-traits = "=0.2.19"
