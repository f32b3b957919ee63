[package]
name = "waveshare_scservo"
version = "0.1.0"
edition = "2021"
publish = false

[dependencies]
embedded-io = "=0.6.1"
embedded-io-async = "=0.6.1"
