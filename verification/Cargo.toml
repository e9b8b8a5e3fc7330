[package]
name = "tp_led_matrix"
version = "0.1.0"
edition = "2021"
publish = false

[dependencies]
heapless = "0.7"
embedded-graphics = "*"
ibm437 = "*"
cortex-m = "0.7"
cortex-m-rtic = "1"
dwt-systick-monotonic = "1"
stm32l4xx-hal = { version = "0.7", features = ["stm32l475"] }
defmt = "0.3"
defmt-rtt = "*"
panic-probe = "*"
