[package]
name = "discovery"
version = "0.1.0"
edition = "2021"
publish = false

[dependencies]
heapless = "0.7"
cortex-m = "0.7"
cortex-m-rt = "0.7"
panic-itm = "0.4"
embedded-hal = "0.2"
embedded-time = "0.12"
stm32f3xx-hal = { version = "0.9", features = ["stm32f303xc"] }
lsm303agr = "0.2"
m = "0.1"
