[package]
name = "suomipeli_core"
version = "0.1.0"
edition = "2021"
publish = false

[dependencies]
cortex-m = "=0.7.10"
cortex-m-rtic = "=1.1.4"
embedded-alloc = "0.5"
embedded-hal = "=0.2.7"
fugit = "=0.3.9"
panic-halt = "=0.2.0"
rand = { version = "=0.8.8", default-features = false, features = ["std_rng"] }
rp-pico = "=0.8.0"
shared-bus = "=0.3.1"
systick-monotonic = "=1.0.1"
