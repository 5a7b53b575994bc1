[package]
name = "cosmic-comp"
version = "0.1.0"
edition = "2021"
publish = false

[dependencies]
anyhow = "=1.0.104"
arc-swap = "=1.9.3"
calloop = "=0.14.5"
clap_lex = "=0.7.7"
glam = "=0.30.10"
libc = "=0.2.191"
nix = { version = "=0.30.1", features = ["signal", "process"] }
rustix = { version = "=1.1.6", features = ["fs"] }
smithay = { version = "=0.7.0", default-features = false, features = ["backend_drm", "desktop", "renderer_gl", "wayland_frontend"] }
tracing = "=0.1.44"
