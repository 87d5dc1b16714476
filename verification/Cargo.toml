[package]
name = "password_gate"
version = "0.1.0"
edition = "2021"
publish = false

[dependencies]
cortex-m-rt = "*"
panic-probe = "*"
rp2040-boot2 = "*"
rp2040-hal = "*"
usb-device = "*"
usbd-serial = "*"
