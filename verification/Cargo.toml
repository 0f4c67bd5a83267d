[package]
name = "gudlet"
version = "0.1.0"
edition = "2021"
publish = false

[dependencies]
lz4_flex = "=0.14.0"
embassy-sync = "=0.8.0"
critical-section = { version = "=1.2.0", features = ["std"] }
embedded-hal = "=1.0.0"
usb-device = "=0.3.2"
usbd-serial = "=0.2.2"
embassy-usb = "=0.6.0"
embassy-time = { version = "=0.5.1", features = ["std"] }
embassy-executor = "=0.10.0"
embassy-futures = "=0.1.2"
portable-atomic = "1"
static_cell = "=2.1.1"
rp2040-hal = { version = "=0.12.0", features = ["rt"] }
rp2040-boot2 = "=0.3.0"
cortex-m = "=0.7.10"
panic-halt = "1"
