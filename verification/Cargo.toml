[package]
name = "filox"
version = "0.4.7"
edition = "2021"
publish = false

[dependencies]
egui = "0.29"
chrono = "0.4"
crossbeam-channel = "0.5"
dirs = "5"
open = "5"
