[package]
name = "dungeon_sim"
version = "0.1.0"
edition = "2021"

[dependencies]
rand = { version = "0.8", features = ["small_rng"] }
pc-keyboard = "*"
pluggable_interrupt_os = "*"
crossbeam = "*"
