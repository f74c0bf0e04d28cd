[package]
name = "xteink_x4_os"
version = "0.1.0"
edition = "2021"
publish = false

[dependencies]
heapless = "=0.8.0"
embassy-executor = "=0.6.3"
embassy-futures = "=0.1.2"
embassy-net = "=0.4.0"
embassy-sync = "=0.6.2"
embassy-time = "=0.3.2"
embedded-hal = "=1.0.0"
embedded-hal-async = "=1.0.0"
embedded-sdmmc = "=0.8.2"
nb = "=1.1.0"
static_cell = "=2.1.1"
