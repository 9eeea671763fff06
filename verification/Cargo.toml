[package]
name = "pulse_state_processing"
version = "0.1.0"
edition = "2021"
publish = false

[dependencies]
safe_arith = "*"
