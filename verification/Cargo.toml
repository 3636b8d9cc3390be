[package]
name = "picorne"
version = "0.1.0"
edition = "2021"
publish = false

[dependencies]
keyberon = "=0.1.1"
cortex-m = "=0.7.9"
cortex-m-rtic = "=1.1.4"
embedded-hal = "=0.2.7"
embedded-time = "=0.12.1"
rp-pico = "=0.8.0"
usb-device = "=0.2.9"
usbd-serial = "=0.1.1"
