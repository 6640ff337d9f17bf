[package]
name = "dcf77_receiver"
version = "0.1.0"
edition = "2021"
publish = false

[dependencies]
chrono = { version = "=0.4.45", default-features = false }
cortex-m = "=0.6.7"
cortex-m-rtic = "=0.5.9"
embedded-hal = "=0.2.7"
heapless = "=0.9.3"
ht16k33 = "=0.4.0"
panic-rtt-target = "=0.2.0"
rtcc = "0.2"
rtt-target = "=0.6.2"
stm32f4xx-hal = { version = "0.10", features = ["rt", "stm32f405"] }
