[package]
name = "apple_frames"
version = "0.1.0"
edition = "2021"
publish = false

[dependencies]
accesskit = "*"
anyhow = "1"
block2 = "*"
core-foundation = "0.10"
core-graphics = "0.24"
core-video = { version = "0.5", features = ["metal"] }
foreign-types = "0.5"
image = { version = "0.25", default-features = false }
log = "0.4"
metal = "*"
objc = "0.2"
objc2 = "*"
objc2-core-foundation = "*"
objc2-foundation = "*"
objc2-ui-kit = { version = "*", default-features = false, features = ["std", "UIAccessibilityElement", "UIAccessibilityConstants", "UIAccessibility", "UIResponder", "objc2-core-foundation"] }
parking_lot = "0.12"
