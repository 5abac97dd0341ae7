[package]
name = "weather_forecast"
version = "0.1.0"
edition = "2021"
publish = false

[dependencies]
lite-json = "=0.2.0"
parity-scale-codec = "=3.7.5"
num-traits = "=0.2.19"
sp-crypto-hashing = "*"
