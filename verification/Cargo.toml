[package]
name = "digital_cards"
version = "0.1.0"
edition = "2021"
publish = false

[dependencies]
cardpack = "=0.4.20"
crossbeam = "=0.8.5"
parking_lot = "=0.11.2"
log = "=0.4.34"
pretty_logger = "=0.1.8"
bevy = { version = "=0.6.1", default-features = false, features = ["render", "bevy_winit", "x11"] }
bevy_egui = { version = "=0.11.1", default-features = false, features = ["multi_threaded"] }
