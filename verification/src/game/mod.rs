//! The rules of the game that the host applies around its scripts.

pub mod host;
pub mod scripted;
pub mod state;
pub mod systems;

pub use host::HostWorld;
pub use scripted::{
    accepts_entities, initial_scripts, lua_process_commands, lua_spawn_player, lua_spawn_world,
    lua_sync_positions, lua_update_camera, lua_update_input, lua_update_player, lua_update_time,
    script_file_name, HealthUpdates, HostCommand, KeyboardSnapshot, LuaPlayerEntity, Marker,
    Requests, UpdateKind,
};
pub use state::{ConnectionStatus, CurrentPlayer, GameState};
pub use systems::{check_connection, check_loading_complete, setup_api_client};
