//! The shared state between scripts and the host tick.
//!
//! Everything a script asks for is written into a buffer here and stays
//! there until the host takes it. Everything a script reads comes from a
//! snapshot that the host wrote here before the script ran.
//!
//! Numbers that scripts hand over or read back (sizes, colours, positions,
//! velocities, health, the time step) are single-precision values. The
//! bridge never computes with them: it stores and returns their 32-bit
//! patterns, and a pattern of zero is the number zero. Host entity handles
//! are stored as the 64-bit pattern of the host's handle.

use std::collections::HashMap;
use vstd::hash_set::StringHashSet;
use vstd::prelude::*;

verus! {

broadcast use vstd::std_specs::hash::group_hash_axioms;

/// The upper-case form of a text, as `str::to_uppercase` computes it.
pub uninterp spec fn uppercase(text: Seq<char>) -> Seq<char>;

/// Calls `str::to_uppercase`, whose result depends on the text alone.
#[verifier::external_body]
fn to_uppercase(text: &str) -> (upper: String)
    ensures
        upper@ == uppercase(text@),
{
    text.to_uppercase()
}

/// A sprite that a script asked for and the host has not created yet.
#[derive(Debug, Clone, Copy, PartialEq, Eq)]
pub struct PendingSpawn {
    /// The identifier the script was given for the sprite.
    pub lua_id: u32,
    pub width: u32,
    pub height: u32,
    /// Red, green and blue, each between zero and one.
    pub color: (u32, u32, u32),
    pub x: u32,
    pub y: u32,
    pub z: u32,
}

/// The bridge as contracts see it.
pub ghost struct BridgeView {
    /// Requested sprites, oldest first.
    pub pending_spawns: Seq<PendingSpawn>,
    /// Requested positions `(id, x, y)`, oldest first.
    pub position_updates: Seq<(u32, u32, u32)>,
    /// Requested velocities `(id, vx, vy)`, oldest first.
    pub velocity_updates: Seq<(u32, u32, u32)>,
    /// Requested health values `(id, current)`, oldest first.
    pub health_updates: Seq<(u32, u32)>,
    /// Requested sprite sizes `(id, width, height)`, oldest first.
    pub size_updates: Seq<(u32, u32, u32)>,
    /// The camera position requested last, if any.
    pub camera_position: Option<(u32, u32)>,
    pub mark_player: Seq<u32>,
    pub mark_camera_target: Seq<u32>,
    pub mark_world_element: Seq<u32>,
    /// The identifier that the next spawn request will be given.
    pub next_entity_id: u32,
    /// The host entity behind each identifier whose sprite exists.
    pub entity_map: Map<u32, u64>,
    /// The identifier of each host entity in `entity_map`.
    pub entity_ids: Map<u64, u32>,
    pub delta_time: u32,
    /// Upper-case names of the keys that are down.
    pub keys_pressed: Set<Seq<char>>,
    /// Positions `(x, y)` as the host last saw them.
    pub entity_positions: Map<u32, (u32, u32)>,
    pub current_camera_pos: (u32, u32),
    /// Health `(current, max)` as the host last saw it.
    pub entity_health: Map<u32, (u32, u32)>,
}

impl BridgeView {
    /// The bridge before anything has happened.
    pub open spec fn initial() -> BridgeView {
        BridgeView {
            pending_spawns: Seq::empty(),
            position_updates: Seq::empty(),
            velocity_updates: Seq::empty(),
            health_updates: Seq::empty(),
            size_updates: Seq::empty(),
            camera_position: None,
            mark_player: Seq::empty(),
            mark_camera_target: Seq::empty(),
            mark_world_element: Seq::empty(),
            next_entity_id: 1,
            entity_map: Map::empty(),
            entity_ids: Map::empty(),
            delta_time: 0,
            keys_pressed: Set::empty(),
            entity_positions: Map::empty(),
            current_camera_pos: (0, 0),
            entity_health: Map::empty(),
        }
    }

    /// Whether `id` has been given to a script.
    pub open spec fn issued(self, id: u32) -> bool {
        1 <= id < self.next_entity_id
    }

    /// Whether a sprite requested under `id` is still waiting.
    pub open spec fn pending(self, id: u32) -> bool {
        exists|i: int| 0 <= i < self.pending_spawns.len() && self.pending_spawns[i].lua_id == id
    }

    /// Whether `id` may be given its host entity now: it was issued, its
    /// request has left the buffer, and it has no entity yet.
    pub open spec fn awaits_entity(self, id: u32) -> bool {
        self.issued(id) && !self.pending(id) && !self.entity_map.contains_key(id)
    }

    /// What holds of every bridge: identifiers start at 1 and are issued in
    /// rising order, a waiting request has no entity yet, and identifiers
    /// and host entities stand in one-to-one correspondence.
    pub open spec fn wf(self) -> bool {
        &&& self.next_entity_id >= 1
        &&& self.entity_map.dom().finite()
        &&& forall|i: int|
            0 <= i < self.pending_spawns.len() ==> self.issued(
                #[trigger] self.pending_spawns[i].lua_id,
            )
        &&& forall|i: int, j: int|
            0 <= i < j < self.pending_spawns.len() ==> self.pending_spawns[i].lua_id
                < self.pending_spawns[j].lua_id
        &&& forall|i: int|
            0 <= i < self.pending_spawns.len() ==> !self.entity_map.contains_key(
                #[trigger] self.pending_spawns[i].lua_id,
            )
        &&& forall|id: u32| #[trigger] self.entity_map.contains_key(id) ==> self.issued(id)
        &&& forall|id: u32| #[trigger]
            self.entity_map.contains_key(id) ==> self.entity_ids.contains_key(self.entity_map[id])
                && self.entity_ids[self.entity_map[id]] == id
        &&& forall|entity: u64| #[trigger]
            self.entity_ids.contains_key(entity) ==> self.entity_map.contains_key(
                self.entity_ids[entity],
            ) && self.entity_map[self.entity_ids[entity]] == entity
    }

    /// The host entity behind `id`, if its sprite exists.
    pub open spec fn entity_of(self, id: u32) -> Option<u64> {
        if self.entity_map.contains_key(id) {
            Some(self.entity_map[id])
        } else {
            None
        }
    }

    /// The position a script reads for `id`: the origin where the host has
    /// reported none.
    pub open spec fn position_of(self, id: u32) -> (u32, u32) {
        if self.entity_positions.contains_key(id) {
            self.entity_positions[id]
        } else {
            (0, 0)
        }
    }

    /// The health a script reads for `id`: zero of zero where the host has
    /// reported none.
    pub open spec fn health_of(self, id: u32) -> (u32, u32) {
        if self.entity_health.contains_key(id) {
            self.entity_health[id]
        } else {
            (0, 0)
        }
    }

    /// Whether the key of this name, in any letter case, is down.
    pub open spec fn key_pressed(self, key: Seq<char>) -> bool {
        self.keys_pressed.contains(uppercase(key))
    }

    /// The bridge after the host has written the time step `dt`.
    pub open spec fn with_delta_time(self, dt: u32) -> BridgeView {
        BridgeView { delta_time: dt, ..self }
    }

    /// The bridge after the key `key` was marked as down or up.
    pub open spec fn with_key(self, key: Seq<char>, pressed: bool) -> BridgeView {
        BridgeView {
            keys_pressed: if pressed {
                self.keys_pressed.insert(uppercase(key))
            } else {
                self.keys_pressed.remove(uppercase(key))
            },
            ..self
        }
    }

    /// The bridge after every key was forgotten.
    pub open spec fn without_keys(self) -> BridgeView {
        BridgeView { keys_pressed: Set::empty(), ..self }
    }

    /// The bridge after the host has reported the position of `id`.
    pub open spec fn with_reported_position(self, id: u32, x: u32, y: u32) -> BridgeView {
        BridgeView { entity_positions: self.entity_positions.insert(id, (x, y)), ..self }
    }

    /// The bridge after the host has reported the health of `id`.
    pub open spec fn with_reported_health(self, id: u32, current: u32, max: u32) -> BridgeView {
        BridgeView { entity_health: self.entity_health.insert(id, (current, max)), ..self }
    }

    /// The bridge after the host has reported the camera position.
    pub open spec fn with_reported_camera(self, x: u32, y: u32) -> BridgeView {
        BridgeView { current_camera_pos: (x, y), ..self }
    }

    /// The bridge after `entity` was put behind `id`.
    pub open spec fn with_entity(self, id: u32, entity: u64) -> BridgeView {
        BridgeView {
            entity_map: self.entity_map.insert(id, entity),
            entity_ids: self.entity_ids.insert(entity, id),
            ..self
        }
    }

    /// The bridge after a spawn request, which is given the identifier
    /// `self.next_entity_id`.
    pub open spec fn with_spawn(
        self,
        width: u32,
        height: u32,
        r: u32,
        g: u32,
        b: u32,
        x: u32,
        y: u32,
        z: u32,
    ) -> BridgeView {
        BridgeView {
            next_entity_id: (self.next_entity_id + 1) as u32,
            pending_spawns: self.pending_spawns.push(
                PendingSpawn {
                    lua_id: self.next_entity_id,
                    width,
                    height,
                    color: (r, g, b),
                    x,
                    y,
                    z,
                },
            ),
            ..self
        }
    }

    /// The bridge after a script has asked for a position of `id`.
    pub open spec fn with_position(self, id: u32, x: u32, y: u32) -> BridgeView {
        BridgeView { position_updates: self.position_updates.push((id, x, y)), ..self }
    }

    /// The bridge after a script has asked for a velocity of `id`.
    pub open spec fn with_velocity(self, id: u32, vx: u32, vy: u32) -> BridgeView {
        BridgeView { velocity_updates: self.velocity_updates.push((id, vx, vy)), ..self }
    }

    /// The bridge after a script has asked for a health value of `id`.
    pub open spec fn with_health(self, id: u32, value: u32) -> BridgeView {
        BridgeView { health_updates: self.health_updates.push((id, value)), ..self }
    }

    /// The bridge after a script has asked for a sprite size of `id`.
    pub open spec fn with_sprite_size(self, id: u32, width: u32, height: u32) -> BridgeView {
        BridgeView { size_updates: self.size_updates.push((id, width, height)), ..self }
    }

    /// The bridge after a script has asked for a camera position.
    pub open spec fn with_camera(self, x: u32, y: u32) -> BridgeView {
        BridgeView { camera_position: Some((x, y)), ..self }
    }

    /// The bridge after a script has asked for `id` to become the player.
    pub open spec fn with_player_mark(self, id: u32) -> BridgeView {
        BridgeView { mark_player: self.mark_player.push(id), ..self }
    }

    /// The bridge after a script has asked for the camera to follow `id`.
    pub open spec fn with_camera_target_mark(self, id: u32) -> BridgeView {
        BridgeView { mark_camera_target: self.mark_camera_target.push(id), ..self }
    }

    /// The bridge after a script has asked for `id` to count as part of the world.
    pub open spec fn with_world_element_mark(self, id: u32) -> BridgeView {
        BridgeView { mark_world_element: self.mark_world_element.push(id), ..self }
    }

    /// The bridge after the waiting sprites were taken.
    pub open spec fn without_spawns(self) -> BridgeView {
        BridgeView { pending_spawns: Seq::empty(), ..self }
    }

    /// The bridge after the queued positions were taken.
    pub open spec fn without_positions(self) -> BridgeView {
        BridgeView { position_updates: Seq::empty(), ..self }
    }

    /// The bridge after the queued velocities were taken.
    pub open spec fn without_velocities(self) -> BridgeView {
        BridgeView { velocity_updates: Seq::empty(), ..self }
    }

    /// The bridge after the queued health values were taken.
    pub open spec fn without_health(self) -> BridgeView {
        BridgeView { health_updates: Seq::empty(), ..self }
    }

    /// The bridge after the queued sprite sizes were taken.
    pub open spec fn without_sprite_sizes(self) -> BridgeView {
        BridgeView { size_updates: Seq::empty(), ..self }
    }

    /// The bridge after the requested camera position was taken.
    pub open spec fn without_camera(self) -> BridgeView {
        BridgeView { camera_position: None, ..self }
    }

    /// The bridge after the player marks were taken.
    pub open spec fn without_player_marks(self) -> BridgeView {
        BridgeView { mark_player: Seq::empty(), ..self }
    }

    /// The bridge after the camera target marks were taken.
    pub open spec fn without_camera_target_marks(self) -> BridgeView {
        BridgeView { mark_camera_target: Seq::empty(), ..self }
    }

    /// The bridge after the world element marks were taken.
    pub open spec fn without_world_element_marks(self) -> BridgeView {
        BridgeView { mark_world_element: Seq::empty(), ..self }
    }
}

/// The state that scripts and the host tick share.
pub struct LuaGameState {
    pending_spawns: Vec<PendingSpawn>,
    position_updates: Vec<(u32, u32, u32)>,
    velocity_updates: Vec<(u32, u32, u32)>,
    camera_position: Option<(u32, u32)>,
    mark_player: Vec<u32>,
    mark_camera_target: Vec<u32>,
    mark_world_element: Vec<u32>,
    next_entity_id: u32,
    entity_map: HashMap<u32, u64>,
    entity_ids: HashMap<u64, u32>,
    delta_time: u32,
    keys_pressed: StringHashSet,
    entity_positions: HashMap<u32, (u32, u32)>,
    current_camera_pos: (u32, u32),
    health_updates: Vec<(u32, u32)>,
    entity_health: HashMap<u32, (u32, u32)>,
    size_updates: Vec<(u32, u32, u32)>,
}

impl View for LuaGameState {
    type V = BridgeView;

    closed spec fn view(&self) -> BridgeView {
        BridgeView {
            pending_spawns: self.pending_spawns@,
            position_updates: self.position_updates@,
            velocity_updates: self.velocity_updates@,
            health_updates: self.health_updates@,
            size_updates: self.size_updates@,
            camera_position: self.camera_position,
            mark_player: self.mark_player@,
            mark_camera_target: self.mark_camera_target@,
            mark_world_element: self.mark_world_element@,
            next_entity_id: self.next_entity_id,
            entity_map: self.entity_map@,
            entity_ids: self.entity_ids@,
            delta_time: self.delta_time,
            keys_pressed: self.keys_pressed@,
            entity_positions: self.entity_positions@,
            current_camera_pos: self.current_camera_pos,
            entity_health: self.entity_health@,
        }
    }
}

impl LuaGameState {
    /// Whether the bridge is in order; see [`BridgeView::wf`].
    pub open spec fn wf(&self) -> bool {
        self@.wf()
    }

    /// An empty bridge whose first identifier will be 1.
    pub fn new() -> (state: Self)
        ensures
            state.wf(),
            state@ == BridgeView::initial(),
    {
        LuaGameState {
            pending_spawns: Vec::new(),
            position_updates: Vec::new(),
            velocity_updates: Vec::new(),
            camera_position: None,
            mark_player: Vec::new(),
            mark_camera_target: Vec::new(),
            mark_world_element: Vec::new(),
            next_entity_id: 1,
            entity_map: HashMap::new(),
            entity_ids: HashMap::new(),
            delta_time: 0,
            keys_pressed: StringHashSet::new(),
            entity_positions: HashMap::new(),
            current_camera_pos: (0, 0),
            health_updates: Vec::new(),
            entity_health: HashMap::new(),
            size_updates: Vec::new(),
        }
    }

    // ----- written by the host before scripts run -----

    /// Records the time step of the tick that is about to run.
    pub fn set_delta_time(&mut self, dt: u32)
        ensures
            final(self)@ == old(self)@.with_delta_time(dt),
    {
        self.delta_time = dt;
    }

    /// Marks the key of this name as down or up. Names are kept in upper
    /// case, so letter case does not matter.
    pub fn set_key_pressed(&mut self, key: &str, pressed: bool)
        ensures
            final(self)@ == old(self)@.with_key(key@, pressed),
    {
        let upper = to_uppercase(key);
        if pressed {
            self.keys_pressed.insert(upper);
        } else {
            self.keys_pressed.remove(upper.as_str());
        }
    }

    /// Forgets every key: none is down afterwards.
    pub fn clear_keys(&mut self)
        ensures
            final(self)@ == old(self)@.without_keys(),
    {
        self.keys_pressed.clear();
    }

    /// Records where the host sees the entity behind `lua_id`.
    pub fn update_entity_position(&mut self, lua_id: u32, x: u32, y: u32)
        ensures
            final(self)@ == old(self)@.with_reported_position(lua_id, x, y),
    {
        self.entity_positions.insert(lua_id, (x, y));
    }

    /// Records the health that the host sees for the entity behind
    /// `lua_id`.
    pub fn update_entity_health(&mut self, lua_id: u32, current: u32, max: u32)
        ensures
            final(self)@ == old(self)@.with_reported_health(lua_id, current, max),
    {
        self.entity_health.insert(lua_id, (current, max));
    }

    /// Records where the host sees the camera.
    pub fn set_camera_position_read(&mut self, x: u32, y: u32)
        ensures
            final(self)@ == old(self)@.with_reported_camera(x, y),
    {
        self.current_camera_pos = (x, y);
    }

    // ----- the identifier map -----

    /// Whether `entity` already stands behind some identifier.
    pub fn entity_in_use(&self, entity: u64) -> (used: bool)
        ensures
            used == self@.entity_ids.contains_key(entity),
    {
        self.entity_ids.contains_key(&entity)
    }

    /// Whether `lua_id` may be given its host entity now.
    pub fn awaits_entity(&self, lua_id: u32) -> (waiting: bool)
        ensures
            waiting == self@.awaits_entity(lua_id),
    {
        if lua_id < 1 || lua_id >= self.next_entity_id || self.entity_map.contains_key(&lua_id) {
            return false;
        }
        let mut i: usize = 0;
        while i < self.pending_spawns.len()
            invariant
                i <= self.pending_spawns.len(),
                forall|k: int| 0 <= k < i ==> self.pending_spawns@[k].lua_id != lua_id,
            decreases self.pending_spawns.len() - i,
        {
            if self.pending_spawns[i].lua_id == lua_id {
                assert(self@.pending_spawns[i as int].lua_id == lua_id);
                return false;
            }
            i += 1;
        }
        true
    }

    /// Puts the host entity `entity` behind `lua_id`. The entry stays for
    /// good: nothing removes or replaces it later.
    pub fn register_entity(&mut self, lua_id: u32, entity: u64)
        requires
            old(self).wf(),
            old(self)@.awaits_entity(lua_id),
            !old(self)@.entity_ids.contains_key(entity),
        ensures
            final(self).wf(),
            final(self)@ == old(self)@.with_entity(lua_id, entity),
    {
        self.entity_map.insert(lua_id, entity);
        self.entity_ids.insert(entity, lua_id);
        proof {
            let before = old(self)@;
            let after = self@;
            assert forall|i: int|
                0 <= i < after.pending_spawns.len() implies !after.entity_map.contains_key(
                #[trigger] after.pending_spawns[i].lua_id,
            ) by {
                assert(before.pending_spawns[i].lua_id != lua_id);
            }
        }
    }

    /// The host entity behind `lua_id`, if its sprite exists.
    pub fn get_entity(&self, lua_id: u32) -> (entity: Option<u64>)
        ensures
            entity == self@.entity_of(lua_id),
    {
        match self.entity_map.get(&lua_id) {
            Some(entity) => Some(*entity),
            None => None,
        }
    }

    // ----- called by scripts -----

    /// Whether another identifier can still be issued.
    pub fn can_spawn(&self) -> (yes: bool)
        ensures
            yes == (self@.next_entity_id < u32::MAX),
    {
        self.next_entity_id < u32::MAX
    }

    /// Queues a sprite and returns the identifier under which the script
    /// will know it. Identifiers count up from 1 and are never given twice.
    pub fn spawn_sprite(
        &mut self,
        width: u32,
        height: u32,
        r: u32,
        g: u32,
        b: u32,
        x: u32,
        y: u32,
        z: u32,
    ) -> (lua_id: u32)
        requires
            old(self).wf(),
            old(self)@.next_entity_id < u32::MAX,
        ensures
            final(self).wf(),
            lua_id == old(self)@.next_entity_id,
            final(self)@ == old(self)@.with_spawn(width, height, r, g, b, x, y, z),
    {
        let lua_id = self.next_entity_id;
        self.next_entity_id = lua_id + 1;
        self.pending_spawns.push(PendingSpawn { lua_id, width, height, color: (r, g, b), x, y, z });
        lua_id
    }

    /// The position of the entity behind `id` as the host last reported
    /// it, and the origin for an identifier it has not reported on.
    pub fn get_position(&self, id: u32) -> (position: (u32, u32))
        ensures
            position == self@.position_of(id),
    {
        match self.entity_positions.get(&id) {
            Some(position) => *position,
            None => (0, 0),
        }
    }

    /// Queues a new position for the entity behind `id`.
    pub fn set_position(&mut self, id: u32, x: u32, y: u32)
        ensures
            final(self)@ == old(self)@.with_position(id, x, y),
    {
        self.position_updates.push((id, x, y));
    }

    /// Queues a new velocity for the entity behind `id`.
    pub fn set_velocity(&mut self, id: u32, vx: u32, vy: u32)
        ensures
            final(self)@ == old(self)@.with_velocity(id, vx, vy),
    {
        self.velocity_updates.push((id, vx, vy));
    }

    /// Whether the key of this name, in any letter case, is down.
    pub fn is_key_pressed(&self, key: &str) -> (pressed: bool)
        ensures
            pressed == self@.key_pressed(key@),
    {
        let upper = to_uppercase(key);
        self.keys_pressed.contains(upper.as_str())
    }

    /// The time step of the current tick.
    pub fn get_delta_time(&self) -> (dt: u32)
        ensures
            dt == self@.delta_time,
    {
        self.delta_time
    }

    /// The camera position as the host last reported it.
    pub fn get_camera_position(&self) -> (position: (u32, u32))
        ensures
            position == self@.current_camera_pos,
    {
        self.current_camera_pos
    }

    /// Asks for the camera to be moved. A later request in the same tick
    /// replaces this one.
    pub fn set_camera_position(&mut self, x: u32, y: u32)
        ensures
            final(self)@ == old(self)@.with_camera(x, y),
    {
        self.camera_position = Some((x, y));
    }

    /// Asks for the entity behind `id` to become the player.
    pub fn mark_as_player(&mut self, id: u32)
        ensures
            final(self)@ == old(self)@.with_player_mark(id),
    {
        self.mark_player.push(id);
    }

    /// Asks for the camera to follow the entity behind `id`.
    pub fn mark_as_camera_target(&mut self, id: u32)
        ensures
            final(self)@ == old(self)@.with_camera_target_mark(id),
    {
        self.mark_camera_target.push(id);
    }

    /// Asks for the entity behind `id` to count as part of the world.
    pub fn mark_as_world_element(&mut self, id: u32)
        ensures
            final(self)@ == old(self)@.with_world_element_mark(id),
    {
        self.mark_world_element.push(id);
    }

    /// Queues a new current health for the entity behind `id`.
    pub fn set_health(&mut self, id: u32, value: u32)
        ensures
            final(self)@ == old(self)@.with_health(id, value),
    {
        self.health_updates.push((id, value));
    }

    /// The health `(current, max)` of the entity behind `id` as the host
    /// last reported it, and zero of zero for an identifier it has not
    /// reported on.
    pub fn get_health(&self, id: u32) -> (health: (u32, u32))
        ensures
            health == self@.health_of(id),
    {
        match self.entity_health.get(&id) {
            Some(health) => *health,
            None => (0, 0),
        }
    }

    /// Queues a new size for the sprite of the entity behind `id`.
    pub fn set_sprite_size(&mut self, id: u32, width: u32, height: u32)
        ensures
            final(self)@ == old(self)@.with_sprite_size(id, width, height),
    {
        self.size_updates.push((id, width, height));
    }

    // ----- taken by the host after scripts ran -----

    /// How many requested sprites are waiting.
    pub fn pending_spawn_count(&self) -> (count: usize)
        ensures
            count == self@.pending_spawns.len(),
    {
        self.pending_spawns.len()
    }

    /// Hands over the waiting sprites, oldest first, and leaves none
    /// behind.
    pub fn take_pending_spawns(&mut self) -> (spawns: Vec<PendingSpawn>)
        ensures
            spawns@ == old(self)@.pending_spawns,
            final(self)@ == old(self)@.without_spawns(),
    {
        let mut spawns = Vec::new();
        std::mem::swap(&mut self.pending_spawns, &mut spawns);
        spawns
    }

    /// Hands over the queued positions, oldest first, and leaves none
    /// behind.
    pub fn take_position_updates(&mut self) -> (updates: Vec<(u32, u32, u32)>)
        ensures
            updates@ == old(self)@.position_updates,
            final(self)@ == old(self)@.without_positions(),
    {
        let mut updates = Vec::new();
        std::mem::swap(&mut self.position_updates, &mut updates);
        updates
    }

    /// Hands over the queued velocities, oldest first, and leaves none
    /// behind.
    pub fn take_velocity_updates(&mut self) -> (updates: Vec<(u32, u32, u32)>)
        ensures
            updates@ == old(self)@.velocity_updates,
            final(self)@ == old(self)@.without_velocities(),
    {
        let mut updates = Vec::new();
        std::mem::swap(&mut self.velocity_updates, &mut updates);
        updates
    }

    /// Hands over the requested camera position and leaves none behind.
    pub fn take_camera_position(&mut self) -> (position: Option<(u32, u32)>)
        ensures
            position == old(self)@.camera_position,
            final(self)@ == old(self)@.without_camera(),
    {
        self.camera_position.take()
    }

    /// Hands over the identifiers to be marked as player, oldest first, and
    /// leaves none behind.
    pub fn take_mark_player(&mut self) -> (ids: Vec<u32>)
        ensures
            ids@ == old(self)@.mark_player,
            final(self)@ == old(self)@.without_player_marks(),
    {
        let mut ids = Vec::new();
        std::mem::swap(&mut self.mark_player, &mut ids);
        ids
    }

    /// Hands over the identifiers to be marked as camera target, oldest
    /// first, and leaves none behind.
    pub fn take_mark_camera_target(&mut self) -> (ids: Vec<u32>)
        ensures
            ids@ == old(self)@.mark_camera_target,
            final(self)@ == old(self)@.without_camera_target_marks(),
    {
        let mut ids = Vec::new();
        std::mem::swap(&mut self.mark_camera_target, &mut ids);
        ids
    }

    /// Hands over the identifiers to be marked as world element, oldest
    /// first, and leaves none behind.
    pub fn take_mark_world_element(&mut self) -> (ids: Vec<u32>)
        ensures
            ids@ == old(self)@.mark_world_element,
            final(self)@ == old(self)@.without_world_element_marks(),
    {
        let mut ids = Vec::new();
        std::mem::swap(&mut self.mark_world_element, &mut ids);
        ids
    }

    /// Hands over the queued health values, oldest first, and leaves none
    /// behind.
    pub fn take_health_updates(&mut self) -> (updates: Vec<(u32, u32)>)
        ensures
            updates@ == old(self)@.health_updates,
            final(self)@ == old(self)@.without_health(),
    {
        let mut updates = Vec::new();
        std::mem::swap(&mut self.health_updates, &mut updates);
        updates
    }

    /// Hands over the queued sprite sizes, oldest first, and leaves none
    /// behind.
    pub fn take_size_updates(&mut self) -> (updates: Vec<(u32, u32, u32)>)
        ensures
            updates@ == old(self)@.size_updates,
            final(self)@ == old(self)@.without_sprite_sizes(),
    {
        let mut updates = Vec::new();
        std::mem::swap(&mut self.size_updates, &mut updates);
        updates
    }
}

impl Default for LuaGameState {
    fn default() -> (state: Self)
        ensures
            state.wf(),
            state@ == BridgeView::initial(),
    {
        LuaGameState::new()
    }
}

/// Taking is drain-once: whatever a take hands over, the same take right
/// after it hands over nothing, and leaves the bridge as the first one
/// left it.
pub proof fn lemma_take_drains_once(bridge: BridgeView)
    ensures
        bridge.without_spawns().pending_spawns.len() == 0,
        bridge.without_spawns().without_spawns() == bridge.without_spawns(),
        bridge.without_positions().position_updates.len() == 0,
        bridge.without_positions().without_positions() == bridge.without_positions(),
        bridge.without_velocities().velocity_updates.len() == 0,
        bridge.without_velocities().without_velocities() == bridge.without_velocities(),
        bridge.without_health().health_updates.len() == 0,
        bridge.without_health().without_health() == bridge.without_health(),
        bridge.without_sprite_sizes().size_updates.len() == 0,
        bridge.without_sprite_sizes().without_sprite_sizes() == bridge.without_sprite_sizes(),
        bridge.without_camera().camera_position is None,
        bridge.without_camera().without_camera() == bridge.without_camera(),
        bridge.without_player_marks().mark_player.len() == 0,
        bridge.without_player_marks().without_player_marks() == bridge.without_player_marks(),
        bridge.without_camera_target_marks().mark_camera_target.len() == 0,
        bridge.without_camera_target_marks().without_camera_target_marks()
            == bridge.without_camera_target_marks(),
        bridge.without_world_element_marks().mark_world_element.len() == 0,
        bridge.without_world_element_marks().without_world_element_marks()
            == bridge.without_world_element_marks(),
{
}

/// What is queued between two takes is what the second take hands over:
/// nothing is lost and nothing comes twice.
pub proof fn lemma_take_hands_over_what_was_queued(
    bridge: BridgeView,
    width: u32,
    height: u32,
    r: u32,
    g: u32,
    b: u32,
    x: u32,
    y: u32,
    z: u32,
    id: u32,
)
    ensures
        bridge.without_spawns().with_spawn(width, height, r, g, b, x, y, z).pending_spawns
            == seq![
            PendingSpawn { lua_id: bridge.next_entity_id, width, height, color: (r, g, b), x, y, z },
        ],
        bridge.without_positions().with_position(id, x, y).position_updates == seq![(id, x, y)],
        bridge.without_player_marks().with_player_mark(id).mark_player == seq![id],
{
    assert(Seq::<PendingSpawn>::empty().push(
        PendingSpawn { lua_id: bridge.next_entity_id, width, height, color: (r, g, b), x, y, z },
    ) =~= seq![
        PendingSpawn { lua_id: bridge.next_entity_id, width, height, color: (r, g, b), x, y, z },
    ]);
    assert(Seq::<(u32, u32, u32)>::empty().push((id, x, y)) =~= seq![(id, x, y)]);
    assert(Seq::<u32>::empty().push(id) =~= seq![id]);
}

/// After the keys were cleared and one key was marked as down, a script
/// that asks about a name hears yes exactly where the name it asks about
/// and the name that was marked have the same upper-case form.
pub proof fn lemma_single_key(bridge: BridgeView, key: Seq<char>, asked: Seq<char>)
    ensures
        bridge.without_keys().with_key(key, true).key_pressed(asked) <==> uppercase(asked)
            == uppercase(key),
{
}

/// Identifiers are never given twice: a spawn request is given an
/// identifier above every identifier issued before it, and the requests
/// that are waiting keep their order.
pub proof fn lemma_spawn_keeps_order(
    bridge: BridgeView,
    width: u32,
    height: u32,
    r: u32,
    g: u32,
    b: u32,
    x: u32,
    y: u32,
    z: u32,
)
    requires
        bridge.wf(),
        bridge.next_entity_id < u32::MAX,
    ensures
        bridge.with_spawn(width, height, r, g, b, x, y, z).wf(),
        !bridge.issued(bridge.next_entity_id),
        bridge.with_spawn(width, height, r, g, b, x, y, z).issued(bridge.next_entity_id),
        forall|id: u32|
            bridge.issued(id) ==> bridge.with_spawn(width, height, r, g, b, x, y, z).issued(id),
{
}

/// Every operation keeps the bridge in order. A spawn request needs a free
/// identifier for that, and an entity can only be put behind an
/// identifier that awaits one and must not be in use.
pub proof fn lemma_operations_keep_order(bridge: BridgeView, id: u32, entity: u64, a: u32, b: u32)
    requires
        bridge.wf(),
    ensures
        BridgeView::initial().wf(),
        bridge.with_delta_time(a).wf(),
        forall|key: Seq<char>, pressed: bool| #[trigger] bridge.with_key(key, pressed).wf(),
        bridge.without_keys().wf(),
        bridge.with_reported_position(id, a, b).wf(),
        bridge.with_reported_health(id, a, b).wf(),
        bridge.with_reported_camera(a, b).wf(),
        bridge.awaits_entity(id) && !bridge.entity_ids.contains_key(entity) ==> bridge.with_entity(
            id,
            entity,
        ).wf(),
        bridge.next_entity_id < u32::MAX ==> bridge.with_spawn(a, b, a, b, a, b, a, b).wf(),
        bridge.with_position(id, a, b).wf(),
        bridge.with_velocity(id, a, b).wf(),
        bridge.with_health(id, a).wf(),
        bridge.with_sprite_size(id, a, b).wf(),
        bridge.with_camera(a, b).wf(),
        bridge.with_player_mark(id).wf(),
        bridge.with_camera_target_mark(id).wf(),
        bridge.with_world_element_mark(id).wf(),
        bridge.without_spawns().wf(),
        bridge.without_positions().wf(),
        bridge.without_velocities().wf(),
        bridge.without_health().wf(),
        bridge.without_sprite_sizes().wf(),
        bridge.without_camera().wf(),
        bridge.without_player_marks().wf(),
        bridge.without_camera_target_marks().wf(),
        bridge.without_world_element_marks().wf(),
{
    if bridge.awaits_entity(id) && !bridge.entity_ids.contains_key(entity) {
        let after = bridge.with_entity(id, entity);
        assert(after.entity_map.dom() =~= bridge.entity_map.dom().insert(id));
        assert forall|i: int|
            0 <= i < after.pending_spawns.len() implies !after.entity_map.contains_key(
            #[trigger] after.pending_spawns[i].lua_id,
        ) by {
            assert(bridge.pending_spawns[i].lua_id != id);
        }
    }
}

/// What a script asks for is deferred: no request changes what scripts
/// read, the identifier map, or the identifiers issued so far. Only the
/// host's reports and the command processor do.
pub proof fn lemma_requests_are_deferred(bridge: BridgeView, id: u32, a: u32, b: u32, asked: u32)
    ensures
        bridge.with_position(id, a, b).position_of(asked) == bridge.position_of(asked),
        bridge.with_position(id, a, b).entity_map == bridge.entity_map,
        bridge.with_velocity(id, a, b).entity_map == bridge.entity_map,
        bridge.with_health(id, a).health_of(asked) == bridge.health_of(asked),
        bridge.with_health(id, a).entity_map == bridge.entity_map,
        bridge.with_sprite_size(id, a, b).entity_map == bridge.entity_map,
        bridge.with_camera(a, b).current_camera_pos == bridge.current_camera_pos,
        bridge.with_player_mark(id).entity_map == bridge.entity_map,
        bridge.with_camera_target_mark(id).entity_map == bridge.entity_map,
        bridge.with_world_element_mark(id).entity_map == bridge.entity_map,
        bridge.with_spawn(a, b, a, b, a, b, a, b).entity_map == bridge.entity_map,
        bridge.with_spawn(a, b, a, b, a, b, a, b).entity_of(bridge.next_entity_id)
            == bridge.entity_of(bridge.next_entity_id),
{
}

} // verus!
