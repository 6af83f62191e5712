[package]
name = "openmicro"
version = "0.10.0"
edition = "2021"
publish = false

[dependencies]
cortex-m = "=0.7.10"
critical-section = "=1.2.0"
embassy-futures = "=0.1.2"
embassy-stm32 = { version = "=0.2.0", features = ["stm32f072cb", "time-driver-any", "exti", "memory-x", "unstable-pac"] }
embassy-sync = "=0.6.2"
embassy-time = { version = "=0.4.0", features = ["generic-queue-16"] }
embassy-usb = "=0.4.0"
static_cell = "=2.1.1"
usbd-hid = "=0.8.2"
