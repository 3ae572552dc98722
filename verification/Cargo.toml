[package]
name = "macinmeter-dr-tool"
version = "0.1.0"
edition = "2021"
publish = false

[dependencies]
chrono = "0.4"
clap = "4"
comfy-table = "7"
lazy_static = "1"
rayon = "1"
symphonia = "0.5"
sysinfo = "0.30"
thread-priority = "1"
