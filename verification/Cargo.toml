[package]
name = "amlogic_cb_tools"
version = "0.1.0"
edition = "2021"
publish = false

[dependencies]
libc = "0.2"
embedded-graphics = "0.8"
linux-embedded-hal = { version = "*", default-features = false, features = ["i2c"] }
ssd1306 = "*"

[dev-dependencies]
hex = "0.4"
