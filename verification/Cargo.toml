[package]
name = "teensy4-canfd"
version = "0.1.0"
edition = "2021"
publish = false

[dependencies]
cortex-m = "=0.6.7"
cortex-m-rt = { version = "=0.6.15", features = ["device"] }
imxrt-ral = { version = "=0.4.4", features = ["imxrt1062", "rt"] }
log = "=0.4.35"
teensy4-bsp = "=0.1.1"
