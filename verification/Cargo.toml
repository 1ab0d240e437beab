[package]
name = "openlogi_inject"
version = "0.1.0"
edition = "2021"
publish = false

[dependencies]
shellexpand = "3"
opener = "*"
tracing = "0.1"
core-graphics = "*"
objc2 = "0.6"
objc2-app-kit = { version = "0.3", default-features = false, features = ["std", "NSEvent", "NSGraphicsContext", "objc2-core-foundation", "objc2-core-graphics"] }
objc2-core-graphics = { version = "0.3", default-features = false, features = ["std", "CGEvent", "CGEventTypes"] }
objc2-foundation = { version = "0.3", default-features = false, features = ["std", "NSGeometry", "objc2-core-foundation"] }
