[package]
name = "gltf_scene"
version = "0.1.0"
edition = "2021"
publish = false

[dependencies]
reqwest = { version = "=0.13.5", default-features = false, features = ["blocking"] }
# reqwest hands out this crate's `Url`; it is named here to hold it at the
# version whose source the contracts on locations were read against.
url = "=2.5.8"
gltf = { version = "=1.4.1", default-features = false, features = ["utils", "names"] }
gl = "=0.14.0"
futures = "=0.1.31"
futures-cpupool = "=0.1.8"
# Matrix and quaternion arithmetic for app/algebra.rs, which turns the
# factors of a model matrix into numbers.
cgmath = "=0.18.0"
