use revgame::game::{
    accepts_entities, lua_process_commands, lua_sync_positions, lua_update_input, lua_update_time,
    HostCommand, KeyboardSnapshot, LuaPlayerEntity, Marker,
};
use revgame::scripting::{LuaGameState, PendingSpawn};

fn bits(value: f32) -> u32 {
    value.to_bits()
}

/// One tick of the host: creates the entities `next`, `next + 1`, ... for
/// the waiting sprites and runs the command processor.
fn tick(state: &mut LuaGameState, player: &mut LuaPlayerEntity, next: u64) -> Vec<HostCommand> {
    let entities: Vec<u64> = (0..state.pending_spawn_count() as u64).map(|i| next + i).collect();
    assert!(accepts_entities(state, &entities));
    lua_process_commands(state, player, &entities)
}

fn marks(commands: &[HostCommand], marker: Marker) -> Vec<u64> {
    let mut entities = Vec::new();
    for command in commands {
        if let HostCommand::Mark { entity, marker: m } = command {
            if *m == marker {
                entities.push(*entity);
            }
        }
    }
    entities
}

#[test]
fn every_waiting_sprite_gets_its_entity_in_the_order_of_the_requests() {
    let mut state = LuaGameState::new();
    let mut player = LuaPlayerEntity::default();
    let n = 5;
    for i in 0..n {
        state.spawn_sprite(bits(i as f32), bits(1.0), 0, 0, 0, 0, 0, 0);
    }
    let commands = tick(&mut state, &mut player, 100);
    assert_eq!(commands.len(), n);
    for i in 0..n {
        match commands[i] {
            HostCommand::Spawn { entity, spawn } => {
                assert_eq!(entity, 100 + i as u64);
                assert_eq!(spawn.lua_id, 1 + i as u32);
                assert_eq!(spawn.width, bits(i as f32));
            }
            other => panic!("not a spawn: {:?}", other),
        }
        assert_eq!(state.get_entity(1 + i as u32), Some(100 + i as u64));
    }
    assert_eq!(state.get_entity(0), None);
    assert_eq!(state.get_entity(n as u32 + 1), None);
    assert_eq!(state.pending_spawn_count(), 0);
    assert!(tick(&mut state, &mut player, 200).is_empty());
}

#[test]
fn entries_of_the_identifier_map_stay() {
    let mut state = LuaGameState::new();
    let mut player = LuaPlayerEntity::default();
    state.spawn_sprite(0, 0, 0, 0, 0, 0, 0, 0);
    tick(&mut state, &mut player, 100);
    state.spawn_sprite(0, 0, 0, 0, 0, 0, 0, 0);
    state.spawn_sprite(0, 0, 0, 0, 0, 0, 0, 0);
    tick(&mut state, &mut player, 200);
    assert_eq!(state.get_entity(1), Some(100));
    assert_eq!(state.get_entity(2), Some(200));
    assert_eq!(state.get_entity(3), Some(201));
}

#[test]
fn a_mark_for_an_identifier_without_entity_is_dropped_and_not_kept() {
    let mut state = LuaGameState::new();
    let mut player = LuaPlayerEntity::default();
    // Identifier 1 has not been issued yet.
    state.mark_as_player(1);
    state.mark_as_camera_target(1);
    state.mark_as_world_element(1);
    assert!(tick(&mut state, &mut player, 100).is_empty());

    // Its sprite arrives a tick later; the old marks are gone.
    assert_eq!(state.spawn_sprite(bits(10.0), bits(10.0), bits(1.0), 0, 0, 0, 0, 0), 1);
    let commands = tick(&mut state, &mut player, 100);
    assert_eq!(commands.len(), 1);
    assert!(matches!(commands[0], HostCommand::Spawn { entity: 100, .. }));

    // Marked again once it exists, it gets each role.
    state.mark_as_player(1);
    state.mark_as_camera_target(1);
    state.mark_as_world_element(1);
    let commands = tick(&mut state, &mut player, 200);
    assert_eq!(
        commands,
        vec![
            HostCommand::Mark { entity: 100, marker: Marker::Player },
            HostCommand::Mark { entity: 100, marker: Marker::CameraTarget },
            HostCommand::Mark { entity: 100, marker: Marker::WorldElement },
        ]
    );
}

#[test]
fn spawn_then_mark_as_player() {
    let mut state = LuaGameState::new();
    let mut player = LuaPlayerEntity::default();
    let id = state.spawn_sprite(bits(10.0), bits(10.0), bits(1.0), bits(0.0), bits(0.0), bits(0.0), bits(0.0), bits(0.0));
    assert_eq!(id, 1);
    state.mark_as_player(1);

    // The sprite gets its entity first, so the mark of the same tick finds it.
    let commands = tick(&mut state, &mut player, 100);
    assert_eq!(
        commands,
        vec![
            HostCommand::Spawn {
                entity: 100,
                spawn: PendingSpawn {
                    lua_id: 1,
                    width: bits(10.0),
                    height: bits(10.0),
                    color: (bits(1.0), 0, 0),
                    x: 0,
                    y: 0,
                    z: 0,
                },
            },
            HostCommand::Mark { entity: 100, marker: Marker::Player },
        ]
    );
    assert_eq!(state.get_entity(1), Some(100));

    // Marked again a tick later, the same entity is named again.
    state.mark_as_player(1);
    let commands = tick(&mut state, &mut player, 200);
    assert_eq!(commands, vec![HostCommand::Mark { entity: 100, marker: Marker::Player }]);
    assert_eq!(marks(&commands, Marker::Player), vec![100]);
}

#[test]
fn the_last_update_of_a_tick_comes_last() {
    let mut state = LuaGameState::new();
    let mut player = LuaPlayerEntity::default();
    state.spawn_sprite(0, 0, 0, 0, 0, 0, 0, 0);
    state.spawn_sprite(0, 0, 0, 0, 0, 0, 0, 0);
    tick(&mut state, &mut player, 100);

    state.set_position(1, bits(1.0), bits(1.0));
    state.set_position(2, bits(5.0), bits(5.0));
    state.set_position(1, bits(2.0), bits(3.0));
    state.set_velocity(1, bits(1.0), bits(0.0));
    state.set_velocity(1, bits(0.0), bits(1.0));
    state.set_health(2, bits(90.0));
    state.set_health(2, bits(80.0));
    state.set_sprite_size(1, bits(4.0), bits(4.0));
    state.set_sprite_size(1, bits(8.0), bits(8.0));
    let commands = tick(&mut state, &mut player, 200);
    assert_eq!(
        commands,
        vec![
            HostCommand::SetPosition { entity: 100, x: bits(1.0), y: bits(1.0) },
            HostCommand::SetPosition { entity: 101, x: bits(5.0), y: bits(5.0) },
            HostCommand::SetPosition { entity: 100, x: bits(2.0), y: bits(3.0) },
            HostCommand::SetVelocity { entity: 100, vx: bits(1.0), vy: bits(0.0) },
            HostCommand::SetVelocity { entity: 100, vx: bits(0.0), vy: bits(1.0) },
            HostCommand::SetHealth { entity: 101, current: bits(90.0) },
            HostCommand::SetHealth { entity: 101, current: bits(80.0) },
            HostCommand::SetSpriteSize { entity: 100, width: bits(4.0), height: bits(4.0) },
            HostCommand::SetSpriteSize { entity: 100, width: bits(8.0), height: bits(8.0) },
        ]
    );

    // Carried out in order, the last position for entity 100 is what stays.
    let mut position = None;
    for command in &commands {
        if let HostCommand::SetPosition { entity: 100, x, y } = command {
            position = Some((f32::from_bits(*x), f32::from_bits(*y)));
        }
    }
    assert_eq!(position, Some((2.0, 3.0)));
}

#[test]
fn updates_for_identifiers_without_entity_are_ignored() {
    let mut state = LuaGameState::new();
    let mut player = LuaPlayerEntity::default();
    state.set_position(9, 1, 1);
    state.set_velocity(9, 1, 1);
    state.set_health(9, 1);
    state.set_sprite_size(9, 1, 1);
    assert!(tick(&mut state, &mut player, 100).is_empty());
    assert!(state.take_position_updates().is_empty());
    assert!(state.take_velocity_updates().is_empty());
    assert!(state.take_health_updates().is_empty());
    assert!(state.take_size_updates().is_empty());
}

#[test]
fn commands_come_in_a_fixed_order() {
    let mut state = LuaGameState::new();
    let mut player = LuaPlayerEntity::default();
    state.set_camera_position(bits(7.0), bits(8.0));
    state.set_sprite_size(1, 1, 2);
    state.set_health(1, 3);
    state.set_velocity(1, 4, 5);
    state.set_position(1, 6, 7);
    state.mark_as_world_element(1);
    state.mark_as_camera_target(1);
    state.mark_as_player(1);
    state.spawn_sprite(0, 0, 0, 0, 0, 0, 0, 0);
    let commands = tick(&mut state, &mut player, 100);
    assert_eq!(commands.len(), 9);
    assert!(matches!(commands[0], HostCommand::Spawn { entity: 100, .. }));
    assert_eq!(commands[1], HostCommand::Mark { entity: 100, marker: Marker::Player });
    assert_eq!(commands[2], HostCommand::Mark { entity: 100, marker: Marker::CameraTarget });
    assert_eq!(commands[3], HostCommand::Mark { entity: 100, marker: Marker::WorldElement });
    assert_eq!(commands[4], HostCommand::SetPosition { entity: 100, x: 6, y: 7 });
    assert_eq!(commands[5], HostCommand::SetVelocity { entity: 100, vx: 4, vy: 5 });
    assert_eq!(commands[6], HostCommand::SetHealth { entity: 100, current: 3 });
    assert_eq!(commands[7], HostCommand::SetSpriteSize { entity: 100, width: 1, height: 2 });
    assert_eq!(commands[8], HostCommand::SetCamera { x: bits(7.0), y: bits(8.0) });
    assert_eq!(state.take_camera_position(), None);
}

#[test]
fn the_player_slot_is_bound_when_its_sprite_gets_an_entity() {
    let mut state = LuaGameState::new();
    state.spawn_sprite(0, 0, 0, 0, 0, 0, 0, 0);
    state.spawn_sprite(0, 0, 0, 0, 0, 0, 0, 0);
    let mut player = LuaPlayerEntity(Some((2, None)));
    assert_eq!(player.bound(), None);
    tick(&mut state, &mut player, 100);
    assert_eq!(player, LuaPlayerEntity(Some((2, Some(101)))));
    assert_eq!(player.bound(), Some((2, 101)));

    // A slot that waits for a sprite of a later tick stays as it is.
    let mut waiting = LuaPlayerEntity(Some((7, None)));
    state.spawn_sprite(0, 0, 0, 0, 0, 0, 0, 0);
    tick(&mut state, &mut waiting, 200);
    assert_eq!(waiting, LuaPlayerEntity(Some((7, None))));

    let mut empty = LuaPlayerEntity::default();
    state.spawn_sprite(0, 0, 0, 0, 0, 0, 0, 0);
    tick(&mut state, &mut empty, 300);
    assert_eq!(empty, LuaPlayerEntity(None));
}

#[test]
fn entities_must_be_fresh_and_one_for_each_sprite() {
    let mut state = LuaGameState::new();
    let mut player = LuaPlayerEntity::default();
    state.spawn_sprite(0, 0, 0, 0, 0, 0, 0, 0);
    state.spawn_sprite(0, 0, 0, 0, 0, 0, 0, 0);
    assert!(!accepts_entities(&state, &vec![]));
    assert!(!accepts_entities(&state, &vec![1]));
    assert!(!accepts_entities(&state, &vec![1, 1]));
    assert!(!accepts_entities(&state, &vec![1, 2, 3]));
    assert!(accepts_entities(&state, &vec![1, 2]));
    lua_process_commands(&mut state, &mut player, &vec![1, 2]);
    state.spawn_sprite(0, 0, 0, 0, 0, 0, 0, 0);
    assert!(!accepts_entities(&state, &vec![2]));
    assert!(accepts_entities(&state, &vec![3]));
    assert!(accepts_entities(&LuaGameState::new(), &vec![]));
}

#[test]
fn the_key_state_of_a_tick_replaces_the_last() {
    let mut state = LuaGameState::new();
    let none = KeyboardSnapshot {
        w: false,
        a: false,
        s: false,
        d: false,
        up: false,
        down: false,
        left: false,
        right: false,
    };
    lua_update_input(&KeyboardSnapshot { w: true, left: true, ..none }, &mut state);
    assert!(state.is_key_pressed("w"));
    assert!(state.is_key_pressed("left"));
    assert!(!state.is_key_pressed("s"));
    lua_update_input(&KeyboardSnapshot { s: true, ..none }, &mut state);
    assert!(!state.is_key_pressed("w"));
    assert!(!state.is_key_pressed("left"));
    assert!(state.is_key_pressed("s"));
    let all = KeyboardSnapshot {
        w: true,
        a: true,
        s: true,
        d: true,
        up: true,
        down: true,
        left: true,
        right: true,
    };
    lua_update_input(&all, &mut state);
    for name in ["W", "A", "S", "D", "UP", "DOWN", "LEFT", "RIGHT"] {
        assert!(state.is_key_pressed(name), "{}", name);
    }
    assert!(!state.is_key_pressed("SPACE"));
    lua_update_input(&none, &mut state);
    for name in ["W", "A", "S", "D", "UP", "DOWN", "LEFT", "RIGHT"] {
        assert!(!state.is_key_pressed(name), "{}", name);
    }
}

#[test]
fn snapshots_are_synced_for_a_bound_player_only() {
    let mut state = LuaGameState::new();
    lua_update_time(bits(0.25), &mut state);
    assert_eq!(state.get_delta_time(), bits(0.25));

    let position = Some((bits(1.0), bits(2.0)));
    let health = Some((bits(80.0), bits(100.0)));
    let waiting = LuaPlayerEntity(Some((1, None)));
    lua_sync_positions(&mut state, &waiting, position, health, None);
    assert_eq!(state.get_position(1), (0, 0));
    assert_eq!(state.get_health(1), (0, 0));
    assert_eq!(state.get_camera_position(), (0, 0));

    let bound = LuaPlayerEntity(Some((1, Some(100))));
    lua_sync_positions(&mut state, &bound, position, health, Some((bits(3.0), bits(4.0))));
    assert_eq!(state.get_position(1), (bits(1.0), bits(2.0)));
    assert_eq!(state.get_health(1), (bits(80.0), bits(100.0)));
    assert_eq!(state.get_camera_position(), (bits(3.0), bits(4.0)));

    lua_sync_positions(&mut state, &bound, None, None, None);
    assert_eq!(state.get_position(1), (bits(1.0), bits(2.0)));
    assert_eq!(state.get_health(1), (bits(80.0), bits(100.0)));
    assert_eq!(state.get_camera_position(), (bits(3.0), bits(4.0)));
}
