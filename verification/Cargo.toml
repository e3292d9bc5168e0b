[package]
name = "image_provider"
version = "0.1.0"
edition = "2021"
publish = false

[dependencies]
image = "=0.25.10"
fast_image_resize = { version = "=6.1.0", features = ["image"] }
mime_guess = "=2.0.5"
axum = "=0.8.9"
axum-extra = { version = "=0.10.3", features = ["typed-header"] }
axum-range = "=1.0.0"
tokio = { version = "=1.53.2", features = ["full"] }
log = "=0.4.34"
env_logger = "=0.11.11"
clap = { version = "=4.6.7", features = ["derive"] }
clap-verbosity-flag = "=3.0.4"
console = "=0.16.6"
local-ip-address = "=0.6.13"
qrcode = "=0.14.1"
tower = "=0.5.3"
tower-http = { version = "=0.7.1", features = ["cors"] }
serde = { version = "=1.0.229", features = ["derive"] }
