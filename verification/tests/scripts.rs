use revgame::game::{
    initial_scripts, lua_spawn_player, lua_spawn_world, lua_update_camera, lua_update_player,
    script_file_name, LuaPlayerEntity,
};
use revgame::scripting::{LoadReport, LuaRuntime, ScriptError, ScriptSource};

fn runtime_with(source: &str) -> LuaRuntime {
    let mut runtime = match LuaRuntime::new() {
        Ok(runtime) => runtime,
        Err(error) => panic!("no interpreter: {}", error.to_text()),
    };
    if let Err(error) = runtime.load_script_content("test", source) {
        panic!("{}", error.to_text());
    }
    runtime
}

#[test]
fn a_missing_entry_point_is_reported_and_nothing_else_happens() {
    let runtime = runtime_with("");
    assert!(matches!(
        lua_spawn_world(&runtime),
        Err(ScriptError::MissingFunction(name)) if name == "spawn_world"
    ));
    let mut player = LuaPlayerEntity(Some((3, Some(9))));
    assert!(matches!(
        lua_spawn_player(&runtime, &mut player),
        Err(ScriptError::MissingFunction(name)) if name == "spawn_player"
    ));
    assert_eq!(player, LuaPlayerEntity(Some((3, Some(9)))));
    assert!(matches!(
        lua_update_player(&runtime, &player, 0.0f64.to_bits()),
        Some(Err(ScriptError::MissingFunction(name))) if name == "update_player"
    ));
    assert!(matches!(
        lua_update_camera(&runtime, &player, 0.0f64.to_bits()),
        Some(Err(ScriptError::MissingFunction(name))) if name == "update_camera"
    ));
}

#[test]
fn the_player_slot_waits_for_the_sprite_that_the_script_names() {
    let runtime = runtime_with("function spawn_world() end function spawn_player() return 4 end");
    assert!(lua_spawn_world(&runtime).is_ok());
    let mut player = LuaPlayerEntity::default();
    assert_eq!(lua_spawn_player(&runtime, &mut player).ok(), Some(4));
    assert_eq!(player, LuaPlayerEntity(Some((4, None))));
    assert_eq!(player.bound(), None);
}

#[test]
fn update_functions_run_for_a_bound_player_only() {
    let runtime = runtime_with(
        "calls = 0\n\
         function update_player(id, delta) calls = calls + id end\n\
         function update_camera(id, delta) calls = calls + 100 * id end\n\
         function spawn_player() return calls end",
    );
    let waiting = LuaPlayerEntity(Some((2, None)));
    assert!(lua_update_player(&runtime, &waiting, 0.0f64.to_bits()).is_none());
    assert!(lua_update_camera(&runtime, &waiting, 0.0f64.to_bits()).is_none());
    assert!(lua_update_player(&runtime, &LuaPlayerEntity(None), 0.0f64.to_bits()).is_none());
    assert_eq!(runtime.call_spawn_function("spawn_player").ok(), Some(0));

    let bound = LuaPlayerEntity(Some((2, Some(77))));
    assert!(matches!(lua_update_player(&runtime, &bound, 0.0f64.to_bits()), Some(Ok(()))));
    assert!(matches!(lua_update_camera(&runtime, &bound, 0.0f64.to_bits()), Some(Ok(()))));
    assert_eq!(runtime.call_spawn_function("spawn_player").ok(), Some(202));
}

#[test]
fn startup_loads_the_world_the_player_and_the_camera() {
    assert_eq!(initial_scripts(), vec!["world", "player", "camera"]);
    assert_eq!(script_file_name("player"), "player.lua");
    assert_eq!(script_file_name(""), ".lua");
}

#[test]
fn a_script_that_fails_at_startup_does_not_stop_the_others() {
    let mut runtime = runtime_with("");
    let sources = vec![
        ScriptSource {
            name: "world".to_string(),
            content: Some("function spawn_world() end".to_string()),
        },
        ScriptSource { name: "player".to_string(), content: None },
        ScriptSource { name: "camera".to_string(), content: Some("function (".to_string()) },
        ScriptSource {
            name: "extra".to_string(),
            content: Some("function spawn_player() return 9 end".to_string()),
        },
    ];
    let reports = runtime.load_scripts(&sources);
    assert_eq!(reports.len(), 4);
    assert!(matches!(reports[0], LoadReport::Loaded));
    assert!(matches!(reports[1], LoadReport::NotFound));
    assert!(matches!(reports[2], LoadReport::Failed(ScriptError::Syntax(_))));
    assert!(matches!(reports[3], LoadReport::Loaded));
    assert_eq!(runtime.loaded_source("world"), Some("function spawn_world() end".to_string()));
    assert_eq!(runtime.loaded_source("player"), None);
    assert_eq!(runtime.loaded_source("camera"), None);
    assert!(lua_spawn_world(&runtime).is_ok());
    assert_eq!(runtime.call_spawn_function("spawn_player").ok(), Some(9));
    assert!(runtime.load_scripts(&vec![]).is_empty());
}

#[test]
fn update_functions_get_the_time_step() {
    let runtime = runtime_with(
        "seen = 0\n\
         function update_player(id, delta) seen = seen + delta end\n\
         function update_camera(id, delta) seen = seen + 2 * delta end\n\
         function spawn_player() return seen end",
    );
    let bound = LuaPlayerEntity(Some((2, Some(77))));
    assert!(matches!(lua_update_player(&runtime, &bound, 3.0f64.to_bits()), Some(Ok(()))));
    assert!(matches!(lua_update_camera(&runtime, &bound, 4.0f64.to_bits()), Some(Ok(()))));
    assert_eq!(runtime.call_spawn_function("spawn_player").ok(), Some(11));
}
