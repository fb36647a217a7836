[package]
name = "kepfeldolgozo"
version = "0.1.0"
edition = "2021"
publish = false

[dependencies]
bytemuck = "1"
clap = { version = "4", features = ["derive"] }
image = "0.24"
pollster = "0.3"
rayon = "1"
wgpu = "0.19"
