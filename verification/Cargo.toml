[package]
name = "redfog"
version = "0.1.0"
edition = "2021"
publish = false

[dependencies]
ash = "0.38"
cudarc = { version = "=0.19.10", default-features = false, features = ["std", "driver", "dynamic-loading", "cuda-13000"] }
embedded-graphics = "=0.8.2"
gstreamer = "0.21"
gstreamer-allocators = "0.21"
gstreamer-app = "0.21"
gstreamer-video = { version = "0.21", features = ["v1_24"] }
khronos-egl = { version = "6", features = ["dynamic"] }
libc = "0.2"
libloading = "0.8"
nvidia-video-codec-sdk = "0.4"
pam = "0.8"
pipewire = "0.9"
serde = { version = "1", features = ["derive"] }
serde_json = "1"
softbuffer = "0.4"
tiny-skia = "0.11"
tokio = { version = "1", features = ["full"] }
toml = "0.8"
tracing = "0.1"
tracing-subscriber = "0.3"
wayland-backend = "0.3"
wayland-client = "0.31"
wayland-protocols-plasma = { version = "0.3", features = ["client"] }
wayland-scanner = "0.31"
winit = "0.29"
xkbcommon = "0.8"
