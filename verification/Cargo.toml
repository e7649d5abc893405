[package]
name = "led_meter"
version = "0.1.0"
edition = "2021"
publish = false

[dependencies]
ringbuffer = "*"
openrgb = "*"
cpu-monitor = "*"
sysinfo = "*"
tokio = { version = "1", features = ["macros", "rt-multi-thread", "time", "net"] }
tokio-retry = "*"
log = "*"
simple_logger = "*"
