[package]
name = "asset_coordinator"
version = "0.1.0"
edition = "2021"
publish = false

[dependencies]
anyhow = "=1.0.104"
bevy_ecs = "=0.14.2"
bevy_log = "=0.14.2"
crossbeam-channel = "=0.5.17"
distill-core = "=0.0.3"
distill-daemon = "=0.0.3"
distill-importer = "=0.0.3"
distill-loader = "=0.0.3"
parking_lot = "=0.11.2"
thiserror = "=1.0.69"
type-uuid = "=0.1.2"
