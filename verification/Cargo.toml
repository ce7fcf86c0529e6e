[package]
name = "keykey"
version = "0.1.0"
edition = "2021"
publish = false

[dependencies]
anyhow = "=1.0.104"
cortex-m = "=0.7.9"
crossterm = "=0.29.0"
embedded-hal = "=0.2.7"
heapless = "=0.8.0"
hidapi = "=2.6.7"
num_enum = "=0.7.6"
strum = { version = "=0.28.0", features = ["derive"] }
stm32f1xx-hal = { version = "=0.11.0", features = ["stm32f103", "medium"] }
usb-device = "=0.3.2"
