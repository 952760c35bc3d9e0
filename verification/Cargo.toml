[package]
name = "camera_kelp"
version = "0.1.0"
edition = "2021"
publish = false

[dependencies]
minifb = "0.27"
nokhwa = { version = "0.10", default-features = false, features = ["input-avfoundation"] }
metal = "0.29"
cocoa = "0.25"
core-graphics = "0.23"
objc = "0.2"
