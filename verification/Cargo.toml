[package]
name = "revgame"
version = "0.1.0"
edition = "2021"
publish = false

[dependencies]
bevy = { version = "0.15", default-features = false, features = ["bevy_core_pipeline", "bevy_render", "bevy_sprite", "bevy_state", "bevy_window"] }
mlua = { version = "0.10", features = ["lua54", "vendored", "send"] }
notify-debouncer-mini = { version = "0.7", default-features = false }
reqwest = { version = "0.12", default-features = false, features = ["json"] }
serde = { version = "1", features = ["derive"] }
thiserror = "2"
tokio = { version = "1", features = ["sync"] }
uuid = { version = "1", features = ["serde"] }
