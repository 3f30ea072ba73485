[package]
name = "search_segment_gc"
version = "0.1.0"
edition = "2021"
publish = false

[dependencies]
anyhow = "1"
chrono = "0.4"
futures = "0.3"
parking_lot = "0.12"
sha2 = "0.10"
tracing = "0.1"
