[package]
name = "av_metrics"
version = "0.1.0"
edition = "2021"
publish = false

[dependencies]
rayon = "1"
v_frame = "*"
