[package]
name = "midair"
version = "0.1.0"
edition = "2021"
publish = false

[dependencies]
heapless = "0.8"
embedded-sdmmc = "0.7"
embedded-io = "0.6"
embedded-io-async = "0.6"
nb = "1"
portable-atomic = "1"
cortex-m = "0.7"
cortex-m-rt = "0.7"
panic-halt = "*"
rtic = { version = "2", features = ["thumbv7-backend"] }
rtic-monotonics = { version = "2", features = ["cortex-m-systick"] }
rtt-target = "*"
stm32wlxx-hal = { version = "0.6", features = ["stm32wle5"] }
embedded-storage = "0.3"
embassy-executor = "*"
embassy-futures = "*"
embassy-sync = "*"
embassy-time = "*"
trouble-host = "*"
bt-hci = "*"
esp-alloc = "*"
esp-backtrace = { version = "*", features = ["esp32c6", "panic-handler", "println"] }
esp-bootloader-esp-idf = { version = "*", features = ["esp32c6"] }
esp-hal = { version = "*", features = ["esp32c6", "unstable"] }
esp-println = { version = "*", features = ["esp32c6"] }
esp-radio = { version = "*", features = ["esp32c6", "ble", "unstable"] }
esp-rtos = { version = "*", features = ["esp32c6", "embassy", "esp-radio"] }
esp-storage = { version = "*", features = ["esp32c6"] }
