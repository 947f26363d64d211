[package]
name = "clipboard_log"
version = "0.1.0"
edition = "2021"
publish = false

[dependencies]
clap = { version = "4", features = ["derive"] }
clap-num = "1"
clap-verbosity-flag2 = "*"
dirs = "5"
error-stack = "0.4"
memchr = "2"
memmap2 = "0.9"
rand = "0.8"
rand_distr = "0.4"
rand_xoshiro = "0.6"
