//! The scripting bridge: deferred command buffers, the interpreter host and
//! the reload controller.

pub mod bindings;
pub mod hot_reload;
pub mod runtime;

pub use bindings::{BridgeView, LuaGameState, PendingSpawn};
pub use hot_reload::{merge_batches, reload_target, script_name, ScriptWatchEvent, WatchEventKind};
pub use runtime::{ContentTracker, Failure, LoadReport, LuaRuntime, ScriptError, ScriptSource};
