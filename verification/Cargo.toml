[package]
name = "vulkan_engine"
version = "0.1.0"
edition = "2021"
publish = false

[dependencies]
spirv-layout = "=0.1.3"
