[package]
name = "ewm"
version = "0.1.0"
edition = "2021"
publish = false

[dependencies]
anyhow = "=1.0.104"
async-channel = "=2.5.0"
async-io = "=2.6.0"
bytemuck = { version = "=1.25.2", features = ["derive"] }
drm-ffi = "=0.9.1"
emacs = { version = "=0.23.0", features = ["emacs-28"] }
gio = "=0.22.10"
pipewire = "=0.10.1"
sd-notify = "=0.5.0"
serde = { version = "=1.0.229", features = ["derive"] }
serde_json = "=1.0.154"
smithay = { version = "=0.7.0", default-features = false, features = ["wayland_frontend", "desktop", "backend_drm"] }
smithay-drm-extras = { version = "=0.1.0", default-features = false }
tracing = "=0.1.44"
tracing-journald = "=0.3.2"
tracing-subscriber = { version = "=0.3.23", features = ["env-filter"] }
wayland-client = "=0.31.15"
wayland-protocols-misc = { version = "=0.3.12", features = ["client"] }
zbus = "=5.19.0"
