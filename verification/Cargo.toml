[package]
name = "compux"
version = "0.1.0"
edition = "2021"
publish = false

[dependencies]
base64 = "=0.22.1"
image = { version = "=0.25.10", default-features = false, features = ["png", "jpeg"] }
libc = "0.2"
serde_json = "=1.0.154"
xcap = "=0.4.1"
enigo = { version = "=0.3.0", default-features = false, features = ["x11rb"] }
block2 = "0.6"
dispatch2 = "0.3"
objc2 = "0.6"
objc2-core-foundation = "0.3"
objc2-core-graphics = "0.3"
objc2-core-media = "0.3"
objc2-core-video = "0.3"
objc2-foundation = "0.3"
objc2-screen-capture-kit = "0.3"
