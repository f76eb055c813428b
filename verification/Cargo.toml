[package]
name = "movement_sync"
version = "0.1.0"
edition = "2021"
publish = false

[dependencies]
bevy = { version = "=0.17.3", default-features = false, features = ["bevy_log", "bevy_sprite", "bevy_state"] }
bevy_enhanced_input = "=0.19.3"
bevy_quinnet = "=0.19.0"
bevy_replicon = { version = "=0.36.1", default-features = false, features = ["client", "server"] }
bevy_replicon_quinnet = "=0.15.0"
bevy_transform_interpolation = "=0.3.0"
clap = { version = "=4.6.7", features = ["derive"] }
ctrlc = "=3.5.2"
serde = { version = "=1.0.229", features = ["derive"] }
tokio-util = "=0.7.19"
