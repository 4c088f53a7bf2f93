[package]
name = "zcore_asynccall"
version = "0.1.0"
edition = "2021"
publish = false

[dependencies]
async-trait = "0.1"
bitflags = "1.3.2"
futures = { version = "0.3", default-features = false, features = ["alloc"] }
numeric-enum-macro = "0.2"
riscv = "0.6"
spin = "0.9"
trapframe = "0.8"
virtio-drivers = "0.1"
