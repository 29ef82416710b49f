[package]
name = "seashell"
version = "0.1.0"
edition = "2021"
publish = false

[dependencies]
zbus = "=5.19.0"
futures = "=0.3.34"
anyhow = "=1.0.104"
log = "=0.4.35"
env_logger = "=0.11.11"
async-once-cell = "=0.5.4"
serde = { version = "=1.0.229", features = ["derive"] }
gtk4 = { version = "=0.11.5", features = ["v4_12", "blueprint"] }
gdk4 = "=0.11.5"
gio = "=0.22.10"
glib = "=0.22.10"
gtk4-layer-shell = "=0.8.1"
