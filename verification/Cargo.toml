[package]
name = "feed_ingest"
version = "0.1.0"
edition = "2021"
publish = false

[dependencies]
time = "0.3"
xml-rs = "0.8"
