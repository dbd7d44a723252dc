[package]
name = "midi_buzzer"
version = "0.1.0"
edition = "2021"
publish = false

[dependencies]
heapless = "0.8"
midly = { version = "0.5", default-features = false }
log = "0.4"
esp-hal = "*"
esp-println = "*"
esp-backtrace = "*"
