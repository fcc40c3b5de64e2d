use revgame::scripting::{ContentTracker, Failure, LuaRuntime, ScriptError};

fn runtime() -> LuaRuntime {
    match LuaRuntime::new() {
        Ok(runtime) => runtime,
        Err(error) => panic!("no interpreter: {}", error.to_text()),
    }
}

#[test]
fn a_new_runtime_has_loaded_nothing() {
    let runtime = runtime();
    assert_eq!(runtime.loaded_source("player"), None);
}

#[test]
fn loading_defines_functions_and_records_the_source() {
    let mut runtime = runtime();
    let source = "function spawn_player() return 7 end";
    assert!(runtime.load_script_content("player", source).is_ok());
    assert_eq!(runtime.loaded_source("player"), Some(source.to_string()));
    assert_eq!(runtime.call_spawn_function("spawn_player").ok(), Some(7));
}

#[test]
fn reloading_the_same_content_is_no_change() {
    let mut runtime = runtime();
    let a = "function only_in_a() end function spawn_player() return 1 end";
    assert!(runtime.load_script_content("player", a).is_ok());
    assert!(matches!(runtime.reload_script("player", a), Ok(false)));
    assert!(runtime.call_function("only_in_a").is_ok());
    assert_eq!(runtime.call_spawn_function("spawn_player").ok(), Some(1));
    assert_eq!(runtime.loaded_source("player"), Some(a.to_string()));
}

#[test]
fn reloading_other_content_replaces_the_definitions() {
    let mut runtime = runtime();
    let a = "function spawn_player() return 1 end";
    let b = "function spawn_player() return 2 end function only_in_b() end";
    assert!(runtime.load_script_content("player", a).is_ok());
    assert!(matches!(
        runtime.call_function("only_in_b"),
        Err(ScriptError::MissingFunction(name)) if name == "only_in_b"
    ));
    assert!(matches!(runtime.reload_script("player", b), Ok(true)));
    assert!(runtime.call_function("only_in_b").is_ok());
    assert_eq!(runtime.call_spawn_function("spawn_player").ok(), Some(2));
    assert_eq!(runtime.loaded_source("player"), Some(b.to_string()));
    assert!(matches!(runtime.reload_script("player", b), Ok(false)));
}

#[test]
fn reloading_a_script_that_was_never_loaded_loads_it() {
    let mut runtime = runtime();
    assert!(matches!(runtime.reload_script("camera", "function update_camera() end"), Ok(true)));
    assert!(runtime.call_function("update_camera").is_ok());
}

#[test]
fn a_failed_reload_keeps_the_record_and_the_old_functions() {
    let mut runtime = runtime();
    let a = "function spawn_player() return 1 end";
    assert!(runtime.load_script_content("player", a).is_ok());
    let broken = "function spawn_player( return 2 end";
    assert!(matches!(runtime.reload_script("player", broken), Err(ScriptError::Syntax(_))));
    assert_eq!(runtime.loaded_source("player"), Some(a.to_string()));
    assert_eq!(runtime.call_spawn_function("spawn_player").ok(), Some(1));
    let failing = "error('no')";
    assert!(matches!(runtime.reload_script("player", failing), Err(ScriptError::Runtime(_))));
    assert_eq!(runtime.loaded_source("player"), Some(a.to_string()));
}

#[test]
fn a_failed_first_load_records_nothing() {
    let mut runtime = runtime();
    assert!(matches!(
        runtime.load_script_content("world", "this is not a script"),
        Err(ScriptError::Syntax(_))
    ));
    assert_eq!(runtime.loaded_source("world"), None);
}

#[test]
fn the_three_failures_of_a_call_are_told_apart() {
    let mut runtime = runtime();
    let source = "not_a_function = 3\n\
                  function fails() error('boom') end\n\
                  function answers_text() return 'seven' end";
    assert!(runtime.load_script_content("world", source).is_ok());
    assert!(matches!(
        runtime.call_function("spawn_world"),
        Err(ScriptError::MissingFunction(name)) if name == "spawn_world"
    ));
    assert!(matches!(
        runtime.call_function("not_a_function"),
        Err(ScriptError::TypeMismatch { from, to }) if from == "integer" && to == "function"
    ));
    assert!(matches!(
        runtime.call_function("fails"),
        Err(ScriptError::Runtime(message)) if message.contains("boom")
    ));
    assert!(matches!(
        runtime.call_spawn_function("answers_text"),
        Err(ScriptError::TypeMismatch { from, to }) if from == "string" && to == "u32"
    ));
    assert!(matches!(
        runtime.call_spawn_function("spawn_player"),
        Err(ScriptError::MissingFunction(name)) if name == "spawn_player"
    ));
}

#[test]
fn an_update_function_gets_the_identifier_and_the_time_step() {
    let mut runtime = runtime();
    let source = "seen_id = 0 seen_delta = 0\n\
                  function update_player(id, delta) seen_id = id seen_delta = delta end\n\
                  function spawn_player() return seen_id end\n\
                  function check() if seen_delta ~= 0.5 then error('delta') end end";
    assert!(runtime.load_script_content("player", source).is_ok());
    assert!(runtime.call_update_function("update_player", 42, 0.5f64.to_bits()).is_ok());
    assert_eq!(runtime.call_spawn_function("spawn_player").ok(), Some(42));
    assert!(runtime.call_function("check").is_ok());
    assert!(matches!(
        runtime.call_update_function("update_camera", 42, 0.0f64.to_bits()),
        Err(ScriptError::MissingFunction(name)) if name == "update_camera"
    ));
}

#[test]
fn failures_are_classified_by_where_they_arose() {
    let nil = Failure::FromScript { from: "nil".to_string(), to: "function".to_string() };
    assert!(matches!(
        ScriptError::from_lookup(nil.clone(), "spawn_world"),
        ScriptError::MissingFunction(name) if name == "spawn_world"
    ));
    assert!(matches!(
        ScriptError::from_call(nil),
        ScriptError::TypeMismatch { from, to } if from == "nil" && to == "function"
    ));
    let table = Failure::FromScript { from: "table".to_string(), to: "function".to_string() };
    assert!(matches!(
        ScriptError::from_lookup(table, "spawn_world"),
        ScriptError::TypeMismatch { from, to } if from == "table" && to == "function"
    ));
    assert!(matches!(
        ScriptError::from_lookup(Failure::Runtime("r".to_string()), "f"),
        ScriptError::Runtime(m) if m == "r"
    ));
    assert!(matches!(
        ScriptError::from_call(Failure::Syntax("s".to_string())),
        ScriptError::Syntax(m) if m == "s"
    ));
    assert!(matches!(
        ScriptError::from_call(Failure::Other("o".to_string())),
        ScriptError::Runtime(m) if m == "o"
    ));
    assert!(matches!(
        ScriptError::from_call(Failure::ToScript { from: "u32".to_string(), to: "number".to_string() }),
        ScriptError::TypeMismatch { from, to } if from == "u32" && to == "number"
    ));
}

#[test]
fn errors_read_well_in_a_log() {
    assert_eq!(
        ScriptError::MissingFunction("spawn_world".to_string()).to_text(),
        "missing function: spawn_world"
    );
    assert_eq!(
        ScriptError::TypeMismatch { from: "string".to_string(), to: "u32".to_string() }.to_text(),
        "type mismatch: string is not u32"
    );
    assert_eq!(ScriptError::Syntax("x".to_string()).to_text(), "syntax error: x");
    assert_eq!(ScriptError::Runtime("y".to_string()).to_text(), "runtime error: y");
}

#[test]
fn the_tracker_follows_the_outcome_of_each_attempt() {
    let mut tracker = ContentTracker::new();
    assert!(!tracker.is_current("player", "A"));
    assert_eq!(tracker.source_of("player"), None);

    assert!(tracker.conclude_load("player", "A", Ok(())).is_ok());
    assert!(tracker.is_current("player", "A"));
    assert!(!tracker.is_current("player", "B"));
    assert!(!tracker.is_current("camera", "A"));

    let failed = tracker.conclude_reload("player", "B", Err(ScriptError::Runtime("no".to_string())));
    assert!(matches!(failed, Err(ScriptError::Runtime(m)) if m == "no"));
    assert_eq!(tracker.source_of("player"), Some("A".to_string()));

    assert!(matches!(tracker.conclude_reload("player", "B", Ok(())), Ok(true)));
    assert_eq!(tracker.source_of("player"), Some("B".to_string()));

    let failed = tracker.conclude_load("world", "W", Err(ScriptError::Syntax("bad".to_string())));
    assert!(matches!(failed, Err(ScriptError::Syntax(m)) if m == "bad"));
    assert_eq!(tracker.source_of("world"), None);

    tracker.record("world", "W");
    assert_eq!(tracker.source_of("world"), Some("W".to_string()));
}

#[test]
fn the_interpreter_handed_out_is_the_one_that_runs_the_scripts() {
    let mut runtime = runtime();
    let host = match runtime.lua().create_function(|_, ()| Ok(41u32)) {
        Ok(function) => function,
        Err(error) => panic!("{}", error),
    };
    if let Err(error) = runtime.lua().globals().set("host_answer", host) {
        panic!("{}", error);
    }
    let source = "function spawn_player() return host_answer() + 1 end";
    assert!(runtime.load_script_content("player", source).is_ok());
    assert_eq!(runtime.call_spawn_function("spawn_player").ok(), Some(42));
    // Loading more keeps the interpreter and what the host put into it.
    assert!(matches!(runtime.reload_script("player", "function other() end"), Ok(true)));
    assert_eq!(runtime.call_spawn_function("spawn_player").ok(), Some(42));
    // The exclusive handle is a handle to the same interpreter.
    if let Err(error) = runtime.lua_mut().globals().set("base", 50u32) {
        panic!("{}", error);
    }
    let source = "function spawn_player() return base + host_answer() end";
    assert!(matches!(runtime.reload_script("player", source), Ok(true)));
    assert_eq!(runtime.call_spawn_function("spawn_player").ok(), Some(91));
}

#[test]
fn every_pattern_is_a_time_step() {
    let mut runtime = runtime();
    let source = "last = 0\n\
                  function update_player(id, delta) last = delta end\n\
                  function is_sixteenth() if last ~= 0.0625 then error('no') end end\n\
                  function is_negative() if last ~= -2.5 then error('no') end end\n\
                  function is_unordered() if last == last then error('no') end end\n\
                  function is_float() if math.type(last) ~= 'float' then error('no') end end";
    assert!(runtime.load_script_content("player", source).is_ok());

    assert!(runtime.call_update_function("update_player", 1, 0.0625f64.to_bits()).is_ok());
    assert!(runtime.call_function("is_sixteenth").is_ok());
    assert!(runtime.call_function("is_negative").is_err());
    assert!(runtime.call_update_function("update_player", 1, (-2.5f64).to_bits()).is_ok());
    assert!(runtime.call_function("is_negative").is_ok());
    // The pattern of zero is the number zero, and it arrives as a float.
    assert!(runtime.call_update_function("update_player", 1, 0).is_ok());
    assert!(runtime.call_function("is_float").is_ok());
    assert!(runtime.call_function("is_unordered").is_err());
    // Patterns that are no ordinary number are handed on as they are.
    assert!(runtime.call_update_function("update_player", 1, u64::MAX).is_ok());
    assert!(runtime.call_function("is_unordered").is_ok());
    assert!(runtime.call_function("is_float").is_ok());
}
