[package]
name = "blade-graphics"
version = "0.1.0"
edition = "2021"
publish = false

[dependencies]
wgpu = "28"
naga = "28"
slotmap = "1"
bytemuck = "1"
log = "0.4"
pollster = "0.4"
raw-window-handle = "0.6"
anyhow = "1"
wasm-bindgen-cli-support = "*"
cargo-run-wasm = "*"
hidden-trait = "*"
