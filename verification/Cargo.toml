[package]
name = "wl-zenwindow"
version = "0.1.0"
edition = "2021"
publish = false

[dependencies]
libc = "0.2"
smithay-client-toolkit = { version = "0.19", default-features = false }
thiserror = "2"
wayland-client = "0.31"
wayland-protocols = { version = "0.32", features = ["client", "staging"] }
wayland-protocols-wlr = { version = "0.3", features = ["client"] }
