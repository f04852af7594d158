[package]
name = "cyan_skillfish_governor"
version = "0.1.0"
edition = "2021"
publish = false

[dependencies]
ctrlc = "*"
dirs = "*"
libdrm_amdgpu_sys = "*"
serde = { version = "*", features = ["derive"] }
serde_json = "*"
toml = "*"
watch = "*"
