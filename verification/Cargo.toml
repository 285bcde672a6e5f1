[package]
name = "audiohit"
version = "0.1.0"
edition = "2021"
publish = false

[dependencies]
rand = "0.7"
hound = "3"
decibel = "0.1"
argparse = "0.2"
stopwatch = "0.0.7"
ot_utils = "*"
