//! The host's side of a tick: what it writes into the bridge before the
//! scripts run, which script entry points it calls, and the command
//! processor.
//!
//! Once per tick, after the scripts have run, the command processor empties
//! every buffer of the bridge and turns what it finds into commands for the
//! host's entity store. The host owns its entities. It creates one fresh
//! entity for each waiting sprite before it calls [`lua_process_commands`]
//! and carries out the commands it gets back, first to last.

use crate::scripting::bindings::{uppercase, BridgeView, LuaGameState, PendingSpawn};
use crate::scripting::runtime::{LuaRuntime, ScriptError};
use std::collections::HashSet;
use vstd::prelude::*;

verus! {

broadcast use vstd::std_specs::hash::group_hash_axioms;

/// A role that a script can give to an entity.
#[derive(Debug, Clone, Copy, PartialEq, Eq, Structural)]
pub enum Marker {
    Player,
    CameraTarget,
    WorldElement,
}

/// One thing for the host to do to its entity store.
#[derive(Debug, Clone, Copy, PartialEq, Eq)]
pub enum HostCommand {
    /// Give the fresh entity a sprite of this size and colour at this place.
    Spawn { entity: u64, spawn: PendingSpawn },
    /// Attach the role to the entity.
    Mark { entity: u64, marker: Marker },
    SetPosition { entity: u64, x: u32, y: u32 },
    SetVelocity { entity: u64, vx: u32, vy: u32 },
    SetHealth { entity: u64, current: u32 },
    SetSpriteSize { entity: u64, width: u32, height: u32 },
    /// Move the camera.
    SetCamera { x: u32, y: u32 },
}

/// Which of the three-number buffers an update came from.
#[derive(Debug, Clone, Copy, PartialEq, Eq, Structural)]
pub enum UpdateKind {
    Position,
    Velocity,
    SpriteSize,
}

impl UpdateKind {
    /// The command that carries an update of this kind to `entity`.
    pub open spec fn spec_command(self, entity: u64, a: u32, b: u32) -> HostCommand {
        match self {
            UpdateKind::Position => HostCommand::SetPosition { entity, x: a, y: b },
            UpdateKind::Velocity => HostCommand::SetVelocity { entity, vx: a, vy: b },
            UpdateKind::SpriteSize => HostCommand::SetSpriteSize { entity, width: a, height: b },
        }
    }

    /// The command that carries an update of this kind to `entity`.
    pub fn command(self, entity: u64, a: u32, b: u32) -> (command: HostCommand)
        ensures
            command == self.spec_command(entity, a, b),
    {
        match self {
            UpdateKind::Position => HostCommand::SetPosition { entity, x: a, y: b },
            UpdateKind::Velocity => HostCommand::SetVelocity { entity, vx: a, vy: b },
            UpdateKind::SpriteSize => HostCommand::SetSpriteSize { entity, width: a, height: b },
        }
    }
}

/// The health buffer's way of becoming commands.
#[derive(Debug, Clone, Copy, PartialEq, Eq, Structural)]
pub struct HealthUpdates;

/// How the requests of one buffer become commands: which identifier a
/// request is for, and the command that carries it to the entity behind
/// that identifier.
pub trait Requests {
    /// What the buffer holds.
    type Request;

    /// The identifier that a request is for.
    spec fn spec_id_of(&self, request: Self::Request) -> u32;

    /// The command that carries a request to `entity`.
    spec fn spec_command_for(&self, request: Self::Request, entity: u64) -> HostCommand;

    /// The identifier that a request is for.
    fn id_of(&self, request: &Self::Request) -> (id: u32)
        ensures
            id == self.spec_id_of(*request),
    ;

    /// The command that carries a request to `entity`.
    fn command_for(&self, request: &Self::Request, entity: u64) -> (command: HostCommand)
        ensures
            command == self.spec_command_for(*request, entity),
    ;
}

impl Requests for Marker {
    type Request = u32;

    open spec fn spec_id_of(&self, request: u32) -> u32 {
        request
    }

    open spec fn spec_command_for(&self, request: u32, entity: u64) -> HostCommand {
        HostCommand::Mark { entity, marker: *self }
    }

    fn id_of(&self, request: &u32) -> (id: u32) {
        *request
    }

    fn command_for(&self, request: &u32, entity: u64) -> (command: HostCommand) {
        HostCommand::Mark { entity, marker: *self }
    }
}

impl Requests for UpdateKind {
    type Request = (u32, u32, u32);

    open spec fn spec_id_of(&self, request: (u32, u32, u32)) -> u32 {
        request.0
    }

    open spec fn spec_command_for(&self, request: (u32, u32, u32), entity: u64) -> HostCommand {
        self.spec_command(entity, request.1, request.2)
    }

    fn id_of(&self, request: &(u32, u32, u32)) -> (id: u32) {
        request.0
    }

    fn command_for(&self, request: &(u32, u32, u32), entity: u64) -> (command: HostCommand) {
        self.command(entity, request.1, request.2)
    }
}

impl Requests for HealthUpdates {
    type Request = (u32, u32);

    open spec fn spec_id_of(&self, request: (u32, u32)) -> u32 {
        request.0
    }

    open spec fn spec_command_for(&self, request: (u32, u32), entity: u64) -> HostCommand {
        HostCommand::SetHealth { entity, current: request.1 }
    }

    fn id_of(&self, request: &(u32, u32)) -> (id: u32) {
        request.0
    }

    fn command_for(&self, request: &(u32, u32), entity: u64) -> (command: HostCommand) {
        HostCommand::SetHealth { entity, current: request.1 }
    }
}

/// The player's slot: empty, waiting for the sprite requested under an
/// identifier, or bound to that sprite's host entity.
#[derive(Debug, Clone, Copy, PartialEq, Eq)]
pub struct LuaPlayerEntity(pub Option<(u32, Option<u64>)>);

impl Default for LuaPlayerEntity {
    fn default() -> (slot: Self)
        ensures
            slot.0 is None,
    {
        LuaPlayerEntity(None)
    }
}

impl LuaPlayerEntity {
    /// The identifier and host entity of the player, once the slot is
    /// bound.
    pub open spec fn spec_bound(&self) -> Option<(u32, u64)> {
        match self.0 {
            Some((id, Some(entity))) => Some((id, entity)),
            _ => None,
        }
    }

    /// The identifier and host entity of the player, once the slot is
    /// bound.
    pub fn bound(&self) -> (player: Option<(u32, u64)>)
        ensures
            player == self.spec_bound(),
    {
        match self.0 {
            Some((id, Some(entity))) => Some((id, entity)),
            _ => None,
        }
    }
}

/// The slot after the player's spawn function has answered: waiting for
/// the sprite it named, or as before where the call failed.
pub open spec fn slot_after_spawn(
    slot: Option<(u32, Option<u64>)>,
    outcome: Result<u32, ScriptError>,
) -> Option<(u32, Option<u64>)> {
    match outcome {
        Ok(id) => Some((id, None)),
        Err(_) => slot,
    }
}

impl LuaPlayerEntity {
    /// Takes note of what the player's spawn function answered.
    pub fn await_spawn(&mut self, outcome: &Result<u32, ScriptError>)
        ensures
            final(self).0 == slot_after_spawn(old(self).0, *outcome),
    {
        match outcome {
            Ok(id) => {
                self.0 = Some((*id, None));
            },
            Err(_) => {},
        }
    }
}

/// The scripts that the host loads when it starts, in this order: the
/// world, the player and the camera.
pub fn initial_scripts() -> (names: Vec<String>)
    ensures
        names@.len() == 3,
        names@[0]@ == "world"@,
        names@[1]@ == "player"@,
        names@[2]@ == "camera"@,
{
    let mut names: Vec<String> = Vec::new();
    names.push(String::from_str("world"));
    names.push(String::from_str("player"));
    names.push(String::from_str("camera"));
    names
}

/// The name of the file that holds the script `name`.
pub fn script_file_name(name: &str) -> (file: String)
    ensures
        file@ == name@ + ".lua"@,
{
    String::from_str(name).concat(".lua")
}

/// Calls the script's `spawn_world`. A script that defines no such
/// function, or whose function fails, costs the tick nothing but this
/// call: the error is handed back for the log.
pub fn lua_spawn_world(runtime: &LuaRuntime) -> (outcome: Result<(), ScriptError>)
    ensures
        outcome matches Err(ScriptError::MissingFunction(missing)) ==> missing@ == "spawn_world"@,
{
    runtime.call_function("spawn_world")
}

/// Calls the script's `spawn_player` and makes the player's slot wait for
/// the sprite whose identifier it answers with. Where the call fails the
/// slot stays as it was.
pub fn lua_spawn_player(runtime: &LuaRuntime, player_entity: &mut LuaPlayerEntity) -> (outcome:
    Result<u32, ScriptError>)
    ensures
        final(player_entity).0 == slot_after_spawn(old(player_entity).0, outcome),
        outcome matches Err(ScriptError::MissingFunction(missing)) ==> missing@ == "spawn_player"@,
{
    let outcome = runtime.call_spawn_function("spawn_player");
    player_entity.await_spawn(&outcome);
    outcome
}

/// Calls the script's `update_player` for the player, once the slot is
/// bound; an unbound slot means no call. The time step `delta` is a
/// script number, handed in as its 64-bit pattern.
pub fn lua_update_player(
    runtime: &LuaRuntime,
    player_entity: &LuaPlayerEntity,
    delta: u64,
) -> (outcome: Option<Result<(), ScriptError>>)
    ensures
        outcome is Some <==> player_entity.spec_bound() is Some,
        outcome matches Some(Err(ScriptError::MissingFunction(missing))) ==> missing@
            == "update_player"@,
{
    match player_entity.bound() {
        Some((lua_id, _)) => Some(runtime.call_update_function("update_player", lua_id, delta)),
        None => None,
    }
}

/// Calls the script's `update_camera` for the player, once the slot is
/// bound; an unbound slot means no call. The time step `delta` is a
/// script number, handed in as its 64-bit pattern.
pub fn lua_update_camera(
    runtime: &LuaRuntime,
    player_entity: &LuaPlayerEntity,
    delta: u64,
) -> (outcome: Option<Result<(), ScriptError>>)
    ensures
        outcome is Some <==> player_entity.spec_bound() is Some,
        outcome matches Some(Err(ScriptError::MissingFunction(missing))) ==> missing@
            == "update_camera"@,
{
    match player_entity.bound() {
        Some((lua_id, _)) => Some(runtime.call_update_function("update_camera", lua_id, delta)),
        None => None,
    }
}

/// Which of the keys that scripts can ask about are down.
#[derive(Debug, Clone, Copy, PartialEq, Eq, Structural)]
pub struct KeyboardSnapshot {
    pub w: bool,
    pub a: bool,
    pub s: bool,
    pub d: bool,
    pub up: bool,
    pub down: bool,
    pub left: bool,
    pub right: bool,
}

/// `keys` with the key `name` added where it is down.
pub open spec fn with_key(keys: Set<Seq<char>>, down: bool, name: Seq<char>) -> Set<Seq<char>> {
    if down {
        keys.insert(uppercase(name))
    } else {
        keys
    }
}

/// The names under which scripts see the keys of a snapshot that are down.
pub open spec fn snapshot_keys(keyboard: KeyboardSnapshot) -> Set<Seq<char>> {
    with_key(
        with_key(
            with_key(
                with_key(
                    with_key(
                        with_key(
                            with_key(with_key(Set::empty(), keyboard.w, "W"@), keyboard.a, "A"@),
                            keyboard.s,
                            "S"@,
                        ),
                        keyboard.d,
                        "D"@,
                    ),
                    keyboard.up,
                    "UP"@,
                ),
                keyboard.down,
                "DOWN"@,
            ),
            keyboard.left,
            "LEFT"@,
        ),
        keyboard.right,
        "RIGHT"@,
    )
}

/// Replaces the bridge's key state by this tick's: every key is forgotten
/// first, so that a key released since the last tick does not stay down.
pub fn lua_update_input(keyboard: &KeyboardSnapshot, game_state: &mut LuaGameState)
    ensures
        final(game_state)@ == (BridgeView {
            keys_pressed: snapshot_keys(*keyboard),
            ..old(game_state)@
        }),
{
    game_state.clear_keys();
    if keyboard.w {
        game_state.set_key_pressed("W", true);
    }
    if keyboard.a {
        game_state.set_key_pressed("A", true);
    }
    if keyboard.s {
        game_state.set_key_pressed("S", true);
    }
    if keyboard.d {
        game_state.set_key_pressed("D", true);
    }
    if keyboard.up {
        game_state.set_key_pressed("UP", true);
    }
    if keyboard.down {
        game_state.set_key_pressed("DOWN", true);
    }
    if keyboard.left {
        game_state.set_key_pressed("LEFT", true);
    }
    if keyboard.right {
        game_state.set_key_pressed("RIGHT", true);
    }
}

/// Writes this tick's time step into the bridge.
pub fn lua_update_time(delta: u32, game_state: &mut LuaGameState)
    ensures
        final(game_state)@ == old(game_state)@.with_delta_time(delta),
{
    game_state.set_delta_time(delta);
}

/// What scripts read after the host has reported where it sees the player
/// and the camera and how the player is doing. The player's position and
/// health are recorded only for a bound slot; what the host could not
/// find stays as it was.
pub open spec fn synced(
    bridge: BridgeView,
    player: Option<(u32, u64)>,
    player_position: Option<(u32, u32)>,
    player_health: Option<(u32, u32)>,
    camera_position: Option<(u32, u32)>,
) -> BridgeView {
    BridgeView {
        entity_positions: match (player, player_position) {
            (Some((lua_id, _)), Some(position)) => bridge.entity_positions.insert(lua_id, position),
            _ => bridge.entity_positions,
        },
        entity_health: match (player, player_health) {
            (Some((lua_id, _)), Some(health)) => bridge.entity_health.insert(lua_id, health),
            _ => bridge.entity_health,
        },
        current_camera_pos: match camera_position {
            Some(position) => position,
            None => bridge.current_camera_pos,
        },
        ..bridge
    }
}

/// Copies the host's view of the player and the camera into the bridge,
/// for the scripts of the coming tick to read: the player's position
/// `(x, y)` and health `(current, max)`, and the camera's position.
pub fn lua_sync_positions(
    game_state: &mut LuaGameState,
    player_entity: &LuaPlayerEntity,
    player_position: Option<(u32, u32)>,
    player_health: Option<(u32, u32)>,
    camera_position: Option<(u32, u32)>,
)
    ensures
        final(game_state)@ == synced(
            old(game_state)@,
            player_entity.spec_bound(),
            player_position,
            player_health,
            camera_position,
        ),
{
    match player_entity.bound() {
        Some((lua_id, _)) => {
            match player_position {
                Some((x, y)) => {
                    game_state.update_entity_position(lua_id, x, y);
                },
                None => {},
            }
            match player_health {
                Some((current, max)) => {
                    game_state.update_entity_health(lua_id, current, max);
                },
                None => {},
            }
        },
        None => {},
    }
    match camera_position {
        Some((x, y)) => {
            game_state.set_camera_position_read(x, y);
        },
        None => {},
    }
}

/// The identifiers of the waiting sprites, oldest first.
pub open spec fn spawn_ids(spawns: Seq<PendingSpawn>) -> Seq<u32> {
    Seq::new(spawns.len(), |i: int| spawns[i].lua_id)
}

/// `map` after each of the first `n` keys was put before the value of
/// the same place.
pub open spec fn paired<K, V>(map: Map<K, V>, keys: Seq<K>, values: Seq<V>, n: nat) -> Map<K, V>
    decreases n,
{
    if n == 0 {
        map
    } else {
        paired(map, keys, values, (n - 1) as nat).insert(keys[n - 1], values[n - 1])
    }
}

/// The identifier map after the first `n` waiting sprites got their
/// entities.
pub open spec fn realized_map(
    map: Map<u32, u64>,
    spawns: Seq<PendingSpawn>,
    entities: Seq<u64>,
    n: nat,
) -> Map<u32, u64> {
    paired(map, spawn_ids(spawns), entities, n)
}

/// The reverse of [`realized_map`].
pub open spec fn realized_ids(
    ids: Map<u64, u32>,
    spawns: Seq<PendingSpawn>,
    entities: Seq<u64>,
    n: nat,
) -> Map<u64, u32> {
    paired(ids, entities, spawn_ids(spawns), n)
}

/// The player's slot after the first `n` waiting sprites got their
/// entities: a slot that names one of them is bound to its entity.
pub open spec fn bound_slot(
    slot: Option<(u32, Option<u64>)>,
    spawns: Seq<PendingSpawn>,
    entities: Seq<u64>,
    n: nat,
) -> Option<(u32, Option<u64>)>
    decreases n,
{
    if n == 0 {
        slot
    } else {
        let before = bound_slot(slot, spawns, entities, (n - 1) as nat);
        match before {
            Some((id, _)) => if id == spawns[n - 1].lua_id {
                Some((id, Some(entities[n - 1])))
            } else {
                before
            },
            None => before,
        }
    }
}

/// One spawn command for each waiting sprite, oldest first, each with the
/// entity that the host created for it.
pub open spec fn spawn_commands(spawns: Seq<PendingSpawn>, entities: Seq<u64>) -> Seq<HostCommand> {
    Seq::new(
        spawns.len(),
        |i: int| HostCommand::Spawn { entity: entities[i], spawn: spawns[i] },
    )
}

/// The commands for the requests of one buffer, oldest first. A request
/// for an identifier without an entity yields nothing.
pub open spec fn resolve<R: Requests>(
    requests: Seq<R::Request>,
    map: Map<u32, u64>,
    by: R,
) -> Seq<HostCommand>
    decreases requests.len(),
{
    if requests.len() == 0 {
        Seq::empty()
    } else {
        let earlier = resolve(requests.drop_last(), map, by);
        let id = by.spec_id_of(requests.last());
        if map.contains_key(id) {
            earlier.push(by.spec_command_for(requests.last(), map[id]))
        } else {
            earlier
        }
    }
}

/// The marker commands for a buffer of identifiers, oldest first. An
/// identifier without an entity yields nothing.
pub open spec fn resolve_marks(ids: Seq<u32>, map: Map<u32, u64>, marker: Marker) -> Seq<
    HostCommand,
> {
    resolve(ids, map, marker)
}

/// The commands for a buffer of three-number updates, oldest first. An
/// update for an identifier without an entity yields nothing.
pub open spec fn resolve_updates(
    updates: Seq<(u32, u32, u32)>,
    map: Map<u32, u64>,
    kind: UpdateKind,
) -> Seq<HostCommand> {
    resolve(updates, map, kind)
}

/// The commands for a buffer of health updates, oldest first. An update
/// for an identifier without an entity yields nothing.
pub open spec fn resolve_health(updates: Seq<(u32, u32)>, map: Map<u32, u64>) -> Seq<HostCommand> {
    resolve(updates, map, HealthUpdates)
}

/// The command for the requested camera position, if there is one.
pub open spec fn camera_commands(position: Option<(u32, u32)>) -> Seq<HostCommand> {
    match position {
        Some((x, y)) => seq![HostCommand::SetCamera { x, y }],
        None => Seq::empty(),
    }
}

/// Whether `entities` can stand behind the waiting sprites of `bridge`:
/// one for each, no two alike, none in use already.
pub open spec fn fresh_entities(bridge: BridgeView, entities: Seq<u64>) -> bool {
    &&& entities.len() == bridge.pending_spawns.len()
    &&& forall|i: int, j: int| 0 <= i < j < entities.len() ==> entities[i] != entities[j]
    &&& forall|i: int|
        0 <= i < entities.len() ==> !bridge.entity_ids.contains_key(#[trigger] entities[i])
}

/// The identifier map that a tick leaves behind.
pub open spec fn map_after(bridge: BridgeView, entities: Seq<u64>) -> Map<u32, u64> {
    realized_map(bridge.entity_map, bridge.pending_spawns, entities, entities.len())
}

/// The bridge that a tick leaves behind: every buffer empty, every
/// waiting sprite behind its entity, the snapshots untouched.
pub open spec fn bridge_after(bridge: BridgeView, entities: Seq<u64>) -> BridgeView {
    BridgeView {
        pending_spawns: Seq::empty(),
        position_updates: Seq::empty(),
        velocity_updates: Seq::empty(),
        health_updates: Seq::empty(),
        size_updates: Seq::empty(),
        camera_position: None,
        mark_player: Seq::empty(),
        mark_camera_target: Seq::empty(),
        mark_world_element: Seq::empty(),
        entity_map: map_after(bridge, entities),
        entity_ids: realized_ids(
            bridge.entity_ids,
            bridge.pending_spawns,
            entities,
            entities.len(),
        ),
        ..bridge
    }
}

/// The commands of a tick, in the order in which the host carries them
/// out: sprites first, then the three kinds of markers, then positions,
/// velocities, health and sizes, and the camera last. Markers and updates
/// are resolved against the identifier map that already holds this tick's
/// sprites.
pub open spec fn commands_of(bridge: BridgeView, entities: Seq<u64>) -> Seq<HostCommand> {
    let map = map_after(bridge, entities);
    spawn_commands(bridge.pending_spawns, entities) + resolve_marks(
        bridge.mark_player,
        map,
        Marker::Player,
    ) + resolve_marks(bridge.mark_camera_target, map, Marker::CameraTarget) + resolve_marks(
        bridge.mark_world_element,
        map,
        Marker::WorldElement,
    ) + resolve_updates(bridge.position_updates, map, UpdateKind::Position) + resolve_updates(
        bridge.velocity_updates,
        map,
        UpdateKind::Velocity,
    ) + resolve_health(bridge.health_updates, map) + resolve_updates(
        bridge.size_updates,
        map,
        UpdateKind::SpriteSize,
    ) + camera_commands(bridge.camera_position)
}

/// Which keys [`paired`] holds and what it maps them to, as long as the
/// keys are pairwise different: the keys that `map` held, with their old
/// values, and the first `n` of `keys`, each with the value of its place.
pub proof fn lemma_paired<K, V>(map: Map<K, V>, keys: Seq<K>, values: Seq<V>, n: nat)
    requires
        n <= keys.len(),
        n <= values.len(),
        forall|i: int, j: int| 0 <= i < j < keys.len() ==> keys[i] != keys[j],
    ensures
        forall|key: K| #[trigger]
            paired(map, keys, values, n).contains_key(key) <==> map.contains_key(key) || (
            exists|k: int| 0 <= k < n && keys[k] == key),
        forall|key: K|
            map.contains_key(key) && !(exists|k: int| 0 <= k < n && keys[k] == key)
                ==> #[trigger] paired(map, keys, values, n)[key] == map[key],
        forall|k: int| 0 <= k < n ==> paired(map, keys, values, n)[#[trigger] keys[k]] == values[k],
    decreases n,
{
    if n > 0 {
        lemma_paired(map, keys, values, (n - 1) as nat);
        let earlier = paired(map, keys, values, (n - 1) as nat);
        let later = paired(map, keys, values, n);
        assert(later == earlier.insert(keys[n - 1], values[n - 1]));
        assert forall|key: K| #[trigger]
            later.contains_key(key) <==> map.contains_key(key) || (exists|k: int|
                0 <= k < n && keys[k] == key) by {
            if later.contains_key(key) {
                if key == keys[n - 1] {
                    assert(0 <= n - 1 < n && keys[n - 1] == key);
                } else {
                    assert(earlier.contains_key(key));
                    if !map.contains_key(key) {
                        let k = choose|k: int| 0 <= k < n - 1 && keys[k] == key;
                        assert(0 <= k < n && keys[k] == key);
                    }
                }
            }
            if exists|k: int| 0 <= k < n && keys[k] == key {
                let k = choose|k: int| 0 <= k < n && keys[k] == key;
                if k < n - 1 {
                    assert(0 <= k < n - 1 && keys[k] == key);
                }
            }
        }
        assert forall|key: K|
            map.contains_key(key) && !(exists|k: int|
                0 <= k < n && keys[k] == key) implies #[trigger] later[key] == map[key] by {
            assert(key != keys[n - 1]) by {
                if key == keys[n - 1] {
                    assert(0 <= n - 1 < n && keys[n - 1] == key);
                }
            }
            assert(!(exists|k: int| 0 <= k < n - 1 && keys[k] == key)) by {
                if exists|k: int| 0 <= k < n - 1 && keys[k] == key {
                    let k = choose|k: int| 0 <= k < n - 1 && keys[k] == key;
                    assert(0 <= k < n && keys[k] == key);
                }
            }
        }
        assert forall|k: int| 0 <= k < n implies later[#[trigger] keys[k]] == values[k] by {
            if k < n - 1 {
                assert(keys[k] != keys[n - 1]);
            }
        }
    }
}

/// Which identifiers and entities [`realized_map`] and [`realized_ids`]
/// hold, and what they map them to, as long as the sprites' identifiers
/// and the entities are each pairwise different.
pub proof fn lemma_realized(
    map: Map<u32, u64>,
    ids: Map<u64, u32>,
    spawns: Seq<PendingSpawn>,
    entities: Seq<u64>,
    n: nat,
)
    requires
        n <= spawns.len(),
        n <= entities.len(),
        forall|i: int, j: int| 0 <= i < j < spawns.len() ==> spawns[i].lua_id != spawns[j].lua_id,
        forall|i: int, j: int| 0 <= i < j < entities.len() ==> entities[i] != entities[j],
    ensures
        forall|id: u32| #[trigger]
            realized_map(map, spawns, entities, n).contains_key(id) <==> map.contains_key(id) || (
            exists|k: int| 0 <= k < n && spawns[k].lua_id == id),
        forall|id: u32|
            map.contains_key(id) && !(exists|k: int| 0 <= k < n && spawns[k].lua_id == id)
                ==> #[trigger] realized_map(map, spawns, entities, n)[id] == map[id],
        forall|k: int|
            0 <= k < n ==> realized_map(map, spawns, entities, n)[#[trigger] spawns[k].lua_id]
                == entities[k],
        forall|entity: u64| #[trigger]
            realized_ids(ids, spawns, entities, n).contains_key(entity) <==> ids.contains_key(
                entity,
            ) || (exists|k: int| 0 <= k < n && entities[k] == entity),
        forall|entity: u64|
            ids.contains_key(entity) && !(exists|k: int| 0 <= k < n && entities[k] == entity)
                ==> #[trigger] realized_ids(ids, spawns, entities, n)[entity] == ids[entity],
        forall|k: int|
            0 <= k < n ==> realized_ids(ids, spawns, entities, n)[#[trigger] entities[k]]
                == spawns[k].lua_id,
{
    let keys = spawn_ids(spawns);
    lemma_paired(map, keys, entities, n);
    lemma_paired(ids, entities, keys, n);
    let realized = realized_map(map, spawns, entities, n);
    assert forall|id: u32| #[trigger]
        realized.contains_key(id) <==> map.contains_key(id) || (exists|k: int|
            0 <= k < n && spawns[k].lua_id == id) by {
        if exists|k: int| 0 <= k < n && spawns[k].lua_id == id {
            let k = choose|k: int| 0 <= k < n && spawns[k].lua_id == id;
            assert(0 <= k < n && keys[k] == id);
        }
        if exists|k: int| 0 <= k < n && keys[k] == id {
            let k = choose|k: int| 0 <= k < n && keys[k] == id;
            assert(0 <= k < n && spawns[k].lua_id == id);
        }
    }
    assert forall|id: u32|
        map.contains_key(id) && !(exists|k: int|
            0 <= k < n && spawns[k].lua_id == id) implies #[trigger] realized[id] == map[id] by {
        if exists|k: int| 0 <= k < n && keys[k] == id {
            let k = choose|k: int| 0 <= k < n && keys[k] == id;
            assert(0 <= k < n && spawns[k].lua_id == id);
        }
    }
    assert forall|k: int| 0 <= k < n implies realized[#[trigger] spawns[k].lua_id]
        == entities[k] by {
        assert(keys[k] == spawns[k].lua_id);
    }
    assert forall|k: int|
        0 <= k < n implies realized_ids(ids, spawns, entities, n)[#[trigger] entities[k]]
        == spawns[k].lua_id by {
        assert(keys[k] == spawns[k].lua_id);
    }
}

/// Whether the slot waits for, or is bound to, the sprite behind `id`.
pub open spec fn names(slot: Option<(u32, Option<u64>)>, id: u32) -> bool {
    match slot {
        Some((named, _)) => named == id,
        None => false,
    }
}

/// What becomes of the player's slot when sprites get their entities: an
/// empty slot stays empty, a slot that names none of the sprites stays as
/// it is, and a slot that names one of them is bound to its entity.
pub proof fn lemma_slot_bound(
    slot: Option<(u32, Option<u64>)>,
    spawns: Seq<PendingSpawn>,
    entities: Seq<u64>,
    n: nat,
)
    requires
        n <= spawns.len(),
        n <= entities.len(),
        forall|i: int, j: int| 0 <= i < j < spawns.len() ==> spawns[i].lua_id != spawns[j].lua_id,
    ensures
        slot is None ==> bound_slot(slot, spawns, entities, n) is None,
        (forall|k: int| 0 <= k < n ==> !names(slot, #[trigger] spawns[k].lua_id)) ==> bound_slot(
            slot,
            spawns,
            entities,
            n,
        ) == slot,
        forall|k: int|
            0 <= k < n && names(slot, #[trigger] spawns[k].lua_id) ==> bound_slot(
                slot,
                spawns,
                entities,
                n,
            ) == Some((spawns[k].lua_id, Some(entities[k]))),
    decreases n,
{
    if n > 0 {
        lemma_slot_bound(slot, spawns, entities, (n - 1) as nat);
        let earlier = bound_slot(slot, spawns, entities, (n - 1) as nat);
        if forall|k: int| 0 <= k < n - 1 ==> !names(slot, #[trigger] spawns[k].lua_id) {
        } else {
            let k = choose|k: int| 0 <= k < n - 1 && names(slot, #[trigger] spawns[k].lua_id);
            assert(spawns[k].lua_id != spawns[n - 1].lua_id);
            assert(earlier == Some((spawns[k].lua_id, Some(entities[k]))));
        }
    }
}

/// Whether `entities` can stand behind the waiting sprites of the bridge:
/// one for each, no two alike, none in use already.
pub fn accepts_entities(game_state: &LuaGameState, entities: &Vec<u64>) -> (ok: bool)
    ensures
        ok == fresh_entities(game_state@, entities@),
{
    if entities.len() != game_state.pending_spawn_count() {
        return false;
    }
    let mut seen: HashSet<u64> = HashSet::new();
    let mut i: usize = 0;
    while i < entities.len()
        invariant
            i <= entities.len(),
            entities.len() == game_state@.pending_spawns.len(),
            forall|k: int| 0 <= k < i ==> seen@.contains(#[trigger] entities@[k]),
            forall|entity: u64| #[trigger]
                seen@.contains(entity) ==> exists|k: int| 0 <= k < i && entities@[k] == entity,
            forall|a: int, b: int| 0 <= a < b < i ==> entities@[a] != entities@[b],
            forall|k: int|
                0 <= k < i ==> !game_state@.entity_ids.contains_key(#[trigger] entities@[k]),
        decreases entities.len() - i,
    {
        let entity = entities[i];
        if game_state.entity_in_use(entity) {
            assert(game_state@.entity_ids.contains_key(entities@[i as int]));
            return false;
        }
        if seen.contains(&entity) {
            proof {
                let k = choose|k: int| 0 <= k < i && entities@[k] == entity;
                assert(entities@[k] == entities@[i as int]);
            }
            return false;
        }
        seen.insert(entity);
        i += 1;
    }
    true
}

/// Appends the commands for the requests of one buffer.
fn push_resolved<R: Requests>(
    game_state: &LuaGameState,
    requests: &Vec<R::Request>,
    by: &R,
    commands: &mut Vec<HostCommand>,
)
    ensures
        final(commands)@ == old(commands)@ + resolve(requests@, game_state@.entity_map, *by),
{
    let ghost map = game_state@.entity_map;
    let ghost start = commands@;
    let mut i: usize = 0;
    assert(requests@.take(0) =~= Seq::<R::Request>::empty());
    assert(start + Seq::<HostCommand>::empty() =~= start);
    while i < requests.len()
        invariant
            i <= requests.len(),
            map == game_state@.entity_map,
            commands@ == start + resolve(requests@.take(i as int), map, *by),
        decreases requests.len() - i,
    {
        let request = &requests[i];
        let ghost earlier = resolve(requests@.take(i as int), map, *by);
        proof {
            assert(requests@.take(i + 1).drop_last() =~= requests@.take(i as int));
            assert(requests@.take(i + 1).last() == *request);
        }
        match game_state.get_entity(by.id_of(request)) {
            Some(entity) => {
                commands.push(by.command_for(request, entity));
                assert(commands@ =~= start + earlier.push(
                    by.spec_command_for(*request, entity),
                ));
            },
            None => {},
        }
        i += 1;
    }
    assert(requests@.take(requests.len() as int) =~= requests@);
}

/// Runs the command processor for one tick.
///
/// `entities` holds the entities that the host created for the waiting
/// sprites, one for each, in the order in which the sprites were asked
/// for. The call empties every buffer of the bridge, puts each waiting
/// sprite behind its entity, binds the player's slot if it was waiting for
/// one of them, and returns the commands for the host to carry out.
///
/// A marker or an update whose identifier has no entity, once this tick's
/// sprites have theirs, is dropped: it yields no command and is not kept
/// for a later tick.
pub fn lua_process_commands(
    game_state: &mut LuaGameState,
    player_entity: &mut LuaPlayerEntity,
    entities: &Vec<u64>,
) -> (commands: Vec<HostCommand>)
    requires
        old(game_state).wf(),
        fresh_entities(old(game_state)@, entities@),
    ensures
        final(game_state).wf(),
        final(game_state)@ == bridge_after(old(game_state)@, entities@),
        final(player_entity).0 == bound_slot(
            old(player_entity).0,
            old(game_state)@.pending_spawns,
            entities@,
            entities@.len(),
        ),
        commands@ == commands_of(old(game_state)@, entities@),
{
    let ghost before = game_state@;
    let ghost slot = player_entity.0;
    let mut commands: Vec<HostCommand> = Vec::new();
    let spawns = game_state.take_pending_spawns();
    let mut i: usize = 0;
    assert(spawn_commands(spawns@, entities@).take(0) =~= Seq::<HostCommand>::empty());
    while i < spawns.len()
        invariant
            i <= spawns.len(),
            spawns.len() == entities.len(),
            spawns@ == before.pending_spawns,
            before.wf(),
            fresh_entities(before, entities@),
            game_state.wf(),
            game_state@ == (BridgeView {
                pending_spawns: Seq::empty(),
                entity_map: realized_map(before.entity_map, spawns@, entities@, i as nat),
                entity_ids: realized_ids(before.entity_ids, spawns@, entities@, i as nat),
                ..before
            }),
            player_entity.0 == bound_slot(slot, spawns@, entities@, i as nat),
            commands@ == spawn_commands(spawns@, entities@).take(i as int),
        decreases spawns.len() - i,
    {
        let spawn = spawns[i];
        let entity = entities[i];
        proof {
            lemma_realized(before.entity_map, before.entity_ids, spawns@, entities@, i as nat);
            assert(before.issued(spawns@[i as int].lua_id));
            assert(!before.entity_map.contains_key(spawns@[i as int].lua_id));
            assert(!before.entity_ids.contains_key(entities@[i as int]));
            assert(!game_state@.pending(spawn.lua_id));
        }
        game_state.register_entity(spawn.lua_id, entity);
        match player_entity.0 {
            Some((id, _)) => {
                if id == spawn.lua_id {
                    player_entity.0 = Some((id, Some(entity)));
                }
            },
            None => {},
        }
        commands.push(HostCommand::Spawn { entity, spawn });
        i += 1;
        assert(commands@ =~= spawn_commands(spawns@, entities@).take(i as int));
    }
    assert(spawn_commands(spawns@, entities@).take(spawns.len() as int) =~= spawn_commands(
        spawns@,
        entities@,
    ));

    let ids = game_state.take_mark_player();
    push_resolved(game_state, &ids, &Marker::Player, &mut commands);
    let ids = game_state.take_mark_camera_target();
    push_resolved(game_state, &ids, &Marker::CameraTarget, &mut commands);
    let ids = game_state.take_mark_world_element();
    push_resolved(game_state, &ids, &Marker::WorldElement, &mut commands);

    let updates = game_state.take_position_updates();
    push_resolved(game_state, &updates, &UpdateKind::Position, &mut commands);
    let updates = game_state.take_velocity_updates();
    push_resolved(game_state, &updates, &UpdateKind::Velocity, &mut commands);
    let updates = game_state.take_health_updates();
    push_resolved(game_state, &updates, &HealthUpdates, &mut commands);
    let updates = game_state.take_size_updates();
    push_resolved(game_state, &updates, &UpdateKind::SpriteSize, &mut commands);

    match game_state.take_camera_position() {
        Some((x, y)) => {
            commands.push(HostCommand::SetCamera { x, y });
            assert(seq![HostCommand::SetCamera { x, y }] =~= Seq::<HostCommand>::empty().push(
                HostCommand::SetCamera { x, y },
            ));
        },
        None => {},
    }
    assert(commands@ =~= commands_of(before, entities@));
    commands
}

} // verus!
