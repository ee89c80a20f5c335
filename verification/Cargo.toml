[package]
name = "the_hard_way"
version = "0.1.0"
edition = "2021"
publish = false

[dependencies]
anyhow = "=1.0.104"
bytemuck = "=1.25.2"
ctrlc = "=3.5.2"
erupt = "=0.16.0"
nalgebra = "=0.23.2"
openxr = { version = "=0.13.1", default-features = false, features = ["loaded"] }
rand = "=0.7.3"
