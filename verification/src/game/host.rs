//! What the commands of a tick mean for the host's entity store.
//!
//! [`HostWorld`] is the store as far as commands can change it, and
//! [`HostWorld::apply`] is what carrying out one command does to it. The
//! host is expected to act accordingly; the lemmas below say what then
//! follows for a whole tick.

use super::scripted::{
    bridge_after, camera_commands, commands_of, fresh_entities, lemma_realized, map_after,
    realized_ids, realized_map, resolve_health, resolve_marks, resolve_updates, spawn_commands,
    HealthUpdates, HostCommand, Marker, Requests, UpdateKind,
};
use crate::scripting::bindings::{BridgeView, PendingSpawn};
use vstd::prelude::*;

verus! {

/// The host's entity store as far as commands can change it.
pub ghost struct HostWorld {
    /// The sprite that each scripted entity was created with.
    pub sprites: Map<u64, PendingSpawn>,
    /// The roles that entities have been given.
    pub markers: Set<(u64, Marker)>,
    pub positions: Map<u64, (u32, u32)>,
    pub velocities: Map<u64, (u32, u32)>,
    pub health: Map<u64, u32>,
    pub sizes: Map<u64, (u32, u32)>,
    /// Where scripts last put the camera.
    pub camera: Option<(u32, u32)>,
}

impl HostWorld {
    /// The store after one command.
    pub open spec fn apply(self, command: HostCommand) -> HostWorld {
        match command {
            HostCommand::Spawn { entity, spawn } => HostWorld {
                sprites: self.sprites.insert(entity, spawn),
                positions: self.positions.insert(entity, (spawn.x, spawn.y)),
                sizes: self.sizes.insert(entity, (spawn.width, spawn.height)),
                ..self
            },
            HostCommand::Mark { entity, marker } => HostWorld {
                markers: self.markers.insert((entity, marker)),
                ..self
            },
            HostCommand::SetPosition { entity, x, y } => HostWorld {
                positions: self.positions.insert(entity, (x, y)),
                ..self
            },
            HostCommand::SetVelocity { entity, vx, vy } => HostWorld {
                velocities: self.velocities.insert(entity, (vx, vy)),
                ..self
            },
            HostCommand::SetHealth { entity, current } => HostWorld {
                health: self.health.insert(entity, current),
                ..self
            },
            HostCommand::SetSpriteSize { entity, width, height } => HostWorld {
                sizes: self.sizes.insert(entity, (width, height)),
                ..self
            },
            HostCommand::SetCamera { x, y } => HostWorld { camera: Some((x, y)), ..self },
        }
    }

    /// The store after a sequence of commands, carried out first to last.
    pub open spec fn apply_all(self, commands: Seq<HostCommand>) -> HostWorld
        decreases commands.len(),
    {
        if commands.len() == 0 {
            self
        } else {
            self.apply_all(commands.drop_last()).apply(commands.last())
        }
    }
}

/// Carrying out two sequences one after the other is carrying out their
/// concatenation.
pub proof fn lemma_apply_concat(world: HostWorld, first: Seq<HostCommand>, second: Seq<HostCommand>)
    ensures
        world.apply_all(first + second) == world.apply_all(first).apply_all(second),
    decreases second.len(),
{
    if second.len() == 0 {
        assert(first + second =~= first);
    } else {
        lemma_apply_concat(world, first, second.drop_last());
        assert((first + second).drop_last() =~= first + second.drop_last());
        assert((first + second).last() == second.last());
    }
}

/// Carrying out a sequence and then one more command.
pub proof fn lemma_apply_push(world: HostWorld, commands: Seq<HostCommand>, command: HostCommand)
    ensures
        world.apply_all(commands.push(command)) == world.apply_all(commands).apply(command),
{
    assert(commands.push(command).drop_last() =~= commands);
    assert(commands.push(command).last() == command);
}

/// A kind of request that gives an entity a new value of some sort.
pub trait Writes: Requests {
    /// The sort of value written.
    type Payload;

    /// The value that a request writes.
    spec fn spec_payload(&self, request: Self::Request) -> Self::Payload;
}

impl Writes for UpdateKind {
    type Payload = (u32, u32);

    open spec fn spec_payload(&self, request: (u32, u32, u32)) -> (u32, u32) {
        (request.1, request.2)
    }
}

impl Writes for HealthUpdates {
    type Payload = u32;

    open spec fn spec_payload(&self, request: (u32, u32)) -> u32 {
        request.1
    }
}

/// The value of the last request for `id` in a buffer.
pub open spec fn last_write<W: Writes>(requests: Seq<W::Request>, id: u32, by: W) -> Option<
    W::Payload,
>
    decreases requests.len(),
{
    if requests.len() == 0 {
        None
    } else if by.spec_id_of(requests.last()) == id {
        Some(by.spec_payload(requests.last()))
    } else {
        last_write(requests.drop_last(), id, by)
    }
}

/// Whether no two identifiers of `map` share an entity.
pub open spec fn one_to_one(map: Map<u32, u64>) -> bool {
    forall|a: u32, b: u32|
        map.contains_key(a) && map.contains_key(b) && #[trigger] map[a] == #[trigger] map[b] ==> a
            == b
}

/// The values that the requests of a buffer leave behind, carried out
/// oldest first. A request for an identifier without an entity leaves
/// nothing.
pub open spec fn written<W: Writes>(
    values: Map<u64, W::Payload>,
    requests: Seq<W::Request>,
    map: Map<u32, u64>,
    by: W,
) -> Map<u64, W::Payload>
    decreases requests.len(),
{
    if requests.len() == 0 {
        values
    } else {
        let earlier = written(values, requests.drop_last(), map, by);
        let id = by.spec_id_of(requests.last());
        if map.contains_key(id) {
            earlier.insert(map[id], by.spec_payload(requests.last()))
        } else {
            earlier
        }
    }
}

/// The roles that a buffer of marker requests leaves behind.
pub open spec fn markers_after(
    markers: Set<(u64, Marker)>,
    ids: Seq<u32>,
    map: Map<u32, u64>,
    marker: Marker,
) -> Set<(u64, Marker)>
    decreases ids.len(),
{
    if ids.len() == 0 {
        markers
    } else {
        let earlier = markers_after(markers, ids.drop_last(), map, marker);
        if map.contains_key(ids.last()) {
            earlier.insert((map[ids.last()], marker))
        } else {
            earlier
        }
    }
}

/// The store after the first `n` sprites of a tick have been created.
pub open spec fn world_with_sprites(
    world: HostWorld,
    spawns: Seq<PendingSpawn>,
    entities: Seq<u64>,
    n: nat,
) -> HostWorld
    decreases n,
{
    if n == 0 {
        world
    } else {
        world_with_sprites(world, spawns, entities, (n - 1) as nat).apply(
            HostCommand::Spawn { entity: entities[n - 1], spawn: spawns[n - 1] },
        )
    }
}

/// Marker commands change roles and nothing else.
pub proof fn lemma_marks_effect(
    world: HostWorld,
    ids: Seq<u32>,
    map: Map<u32, u64>,
    marker: Marker,
)
    ensures
        world.apply_all(resolve_marks(ids, map, marker)) == (HostWorld {
            markers: markers_after(world.markers, ids, map, marker),
            ..world
        }),
    decreases ids.len(),
{
    if ids.len() > 0 {
        lemma_marks_effect(world, ids.drop_last(), map, marker);
        if map.contains_key(ids.last()) {
            lemma_apply_push(
                world,
                resolve_marks(ids.drop_last(), map, marker),
                HostCommand::Mark { entity: map[ids.last()], marker },
            );
        }
    }
}

/// Updates of one kind change the values of that kind and nothing else.
pub proof fn lemma_updates_effect(
    world: HostWorld,
    updates: Seq<(u32, u32, u32)>,
    map: Map<u32, u64>,
    kind: UpdateKind,
)
    ensures
        world.apply_all(resolve_updates(updates, map, kind)) == match kind {
            UpdateKind::Position => HostWorld {
                positions: written(world.positions, updates, map, kind),
                ..world
            },
            UpdateKind::Velocity => HostWorld {
                velocities: written(world.velocities, updates, map, kind),
                ..world
            },
            UpdateKind::SpriteSize => HostWorld {
                sizes: written(world.sizes, updates, map, kind),
                ..world
            },
        },
    decreases updates.len(),
{
    if updates.len() > 0 {
        lemma_updates_effect(world, updates.drop_last(), map, kind);
        let (id, a, b) = updates.last();
        if map.contains_key(id) {
            lemma_apply_push(
                world,
                resolve_updates(updates.drop_last(), map, kind),
                kind.spec_command(map[id], a, b),
            );
        }
    }
}

/// Health updates change health and nothing else.
pub proof fn lemma_health_effect(world: HostWorld, updates: Seq<(u32, u32)>, map: Map<u32, u64>)
    ensures
        world.apply_all(resolve_health(updates, map)) == (HostWorld {
            health: written(world.health, updates, map, HealthUpdates),
            ..world
        }),
    decreases updates.len(),
{
    if updates.len() > 0 {
        lemma_health_effect(world, updates.drop_last(), map);
        let (id, current) = updates.last();
        if map.contains_key(id) {
            lemma_apply_push(
                world,
                resolve_health(updates.drop_last(), map),
                HostCommand::SetHealth { entity: map[id], current },
            );
        }
    }
}

/// The spawn commands of a tick create its sprites, oldest first.
pub proof fn lemma_spawns_effect(
    world: HostWorld,
    spawns: Seq<PendingSpawn>,
    entities: Seq<u64>,
    n: nat,
)
    requires
        n <= spawns.len(),
    ensures
        world.apply_all(spawn_commands(spawns, entities).take(n as int)) == world_with_sprites(
            world,
            spawns,
            entities,
            n,
        ),
    decreases n,
{
    let commands = spawn_commands(spawns, entities);
    if n > 0 {
        lemma_spawns_effect(world, spawns, entities, (n - 1) as nat);
        assert(commands.take(n as int).drop_last() =~= commands.take(n - 1));
        assert(commands.take(n as int).last() == commands[n - 1]);
    } else {
        assert(commands.take(0) =~= Seq::<HostCommand>::empty());
    }
}

/// The camera command moves the camera and nothing else.
pub proof fn lemma_camera_effect(world: HostWorld, position: Option<(u32, u32)>)
    ensures
        world.apply_all(camera_commands(position)) == (HostWorld {
            camera: match position {
                Some(p) => Some(p),
                None => world.camera,
            },
            ..world
        }),
{
    match position {
        Some((x, y)) => {
            lemma_apply_push(world, Seq::empty(), HostCommand::SetCamera { x, y });
            assert(seq![HostCommand::SetCamera { x, y }] =~= Seq::<HostCommand>::empty().push(
                HostCommand::SetCamera { x, y },
            ));
        },
        None => {},
    }
}

/// Whether `entity` stands in `created` as `spawn` asked.
pub open spec fn holds_sprite(created: HostWorld, entity: u64, spawn: PendingSpawn) -> bool {
    &&& created.sprites.contains_key(entity)
    &&& created.sprites[entity] == spawn
    &&& created.positions.contains_key(entity)
    &&& created.positions[entity] == (spawn.x, spawn.y)
    &&& created.sizes.contains_key(entity)
    &&& created.sizes[entity] == (spawn.width, spawn.height)
}

/// Whether `entity` has the same sprite, position and size in both
/// stores, or none in both.
pub open spec fn same_sprite(created: HostWorld, world: HostWorld, entity: u64) -> bool {
    &&& created.sprites.contains_key(entity) == world.sprites.contains_key(entity)
    &&& created.sprites[entity] == world.sprites[entity]
    &&& created.positions.contains_key(entity) == world.positions.contains_key(entity)
    &&& created.positions[entity] == world.positions[entity]
    &&& created.sizes.contains_key(entity) == world.sizes.contains_key(entity)
    &&& created.sizes[entity] == world.sizes[entity]
}

/// Creating sprites touches sprites, positions and sizes and nothing
/// else; each sprite ends up behind its entity, and no other entity
/// changes.
pub proof fn lemma_sprites_created(
    world: HostWorld,
    spawns: Seq<PendingSpawn>,
    entities: Seq<u64>,
    n: nat,
)
    requires
        n <= spawns.len(),
        n <= entities.len(),
        forall|i: int, j: int| 0 <= i < j < entities.len() ==> entities[i] != entities[j],
    ensures
        world_with_sprites(world, spawns, entities, n).markers == world.markers,
        world_with_sprites(world, spawns, entities, n).velocities == world.velocities,
        world_with_sprites(world, spawns, entities, n).health == world.health,
        world_with_sprites(world, spawns, entities, n).camera == world.camera,
        forall|k: int|
            0 <= k < n ==> holds_sprite(
                world_with_sprites(world, spawns, entities, n),
                #[trigger] entities[k],
                spawns[k],
            ),
        forall|entity: u64|
            !(exists|k: int| 0 <= k < n && entities[k] == entity) ==> #[trigger] same_sprite(
                world_with_sprites(world, spawns, entities, n),
                world,
                entity,
            ),
    decreases n,
{
    if n > 0 {
        lemma_sprites_created(world, spawns, entities, (n - 1) as nat);
        let earlier = world_with_sprites(world, spawns, entities, (n - 1) as nat);
        let created = world_with_sprites(world, spawns, entities, n);
        assert forall|k: int| 0 <= k < n implies holds_sprite(
            created,
            #[trigger] entities[k],
            spawns[k],
        ) by {
            if k < n - 1 {
                assert(holds_sprite(earlier, entities[k], spawns[k]));
                assert(entities[k] != entities[n - 1]);
            }
        }
        assert forall|entity: u64|
            !(exists|k: int| 0 <= k < n && entities[k] == entity) implies #[trigger] same_sprite(
            created,
            world,
            entity,
        ) by {
            assert(entity != entities[n - 1]) by {
                if entity == entities[n - 1] {
                    assert(0 <= n - 1 < n && entities[n - 1] == entity);
                }
            }
            assert(!(exists|k: int| 0 <= k < n - 1 && entities[k] == entity)) by {
                if exists|k: int| 0 <= k < n - 1 && entities[k] == entity {
                    let k = choose|k: int| 0 <= k < n - 1 && entities[k] == entity;
                    assert(0 <= k < n && entities[k] == entity);
                }
            }
            assert(same_sprite(earlier, world, entity));
        }
    }
}

/// The store that a tick leaves behind.
pub open spec fn world_after(
    world: HostWorld,
    bridge: BridgeView,
    entities: Seq<u64>,
) -> HostWorld {
    let map = map_after(bridge, entities);
    let created = world_with_sprites(world, bridge.pending_spawns, entities, entities.len());
    HostWorld {
        sprites: created.sprites,
        markers: markers_after(
            markers_after(
                markers_after(world.markers, bridge.mark_player, map, Marker::Player),
                bridge.mark_camera_target,
                map,
                Marker::CameraTarget,
            ),
            bridge.mark_world_element,
            map,
            Marker::WorldElement,
        ),
        positions: written(
            created.positions,
            bridge.position_updates,
            map,
            UpdateKind::Position,
        ),
        velocities: written(
            world.velocities,
            bridge.velocity_updates,
            map,
            UpdateKind::Velocity,
        ),
        health: written(world.health, bridge.health_updates, map, HealthUpdates),
        sizes: written(created.sizes, bridge.size_updates, map, UpdateKind::SpriteSize),
        camera: match bridge.camera_position {
            Some(p) => Some(p),
            None => world.camera,
        },
    }
}

/// Carrying out the commands of a tick leaves the store that
/// [`world_after`] describes.
pub proof fn lemma_tick_effect(world: HostWorld, bridge: BridgeView, entities: Seq<u64>)
    requires
        fresh_entities(bridge, entities),
    ensures
        world.apply_all(commands_of(bridge, entities)) == world_after(world, bridge, entities),
{
    let map = map_after(bridge, entities);
    let c0 = spawn_commands(bridge.pending_spawns, entities);
    let c1 = c0 + resolve_marks(bridge.mark_player, map, Marker::Player);
    let c2 = c1 + resolve_marks(bridge.mark_camera_target, map, Marker::CameraTarget);
    let c3 = c2 + resolve_marks(bridge.mark_world_element, map, Marker::WorldElement);
    let c4 = c3 + resolve_updates(bridge.position_updates, map, UpdateKind::Position);
    let c5 = c4 + resolve_updates(bridge.velocity_updates, map, UpdateKind::Velocity);
    let c6 = c5 + resolve_health(bridge.health_updates, map);
    let c7 = c6 + resolve_updates(bridge.size_updates, map, UpdateKind::SpriteSize);
    let c8 = c7 + camera_commands(bridge.camera_position);
    assert(c8 == commands_of(bridge, entities));

    let w0 = world.apply_all(c0);
    assert(c0.take(c0.len() as int) =~= c0);
    lemma_spawns_effect(world, bridge.pending_spawns, entities, entities.len());
    lemma_sprites_created(world, bridge.pending_spawns, entities, entities.len());

    lemma_apply_concat(world, c0, resolve_marks(bridge.mark_player, map, Marker::Player));
    lemma_marks_effect(w0, bridge.mark_player, map, Marker::Player);
    let w1 = world.apply_all(c1);

    lemma_apply_concat(
        world,
        c1,
        resolve_marks(bridge.mark_camera_target, map, Marker::CameraTarget),
    );
    lemma_marks_effect(w1, bridge.mark_camera_target, map, Marker::CameraTarget);
    let w2 = world.apply_all(c2);

    lemma_apply_concat(
        world,
        c2,
        resolve_marks(bridge.mark_world_element, map, Marker::WorldElement),
    );
    lemma_marks_effect(w2, bridge.mark_world_element, map, Marker::WorldElement);
    let w3 = world.apply_all(c3);

    lemma_apply_concat(
        world,
        c3,
        resolve_updates(bridge.position_updates, map, UpdateKind::Position),
    );
    lemma_updates_effect(w3, bridge.position_updates, map, UpdateKind::Position);
    let w4 = world.apply_all(c4);

    lemma_apply_concat(
        world,
        c4,
        resolve_updates(bridge.velocity_updates, map, UpdateKind::Velocity),
    );
    lemma_updates_effect(w4, bridge.velocity_updates, map, UpdateKind::Velocity);
    let w5 = world.apply_all(c5);

    lemma_apply_concat(world, c5, resolve_health(bridge.health_updates, map));
    lemma_health_effect(w5, bridge.health_updates, map);
    let w6 = world.apply_all(c6);

    lemma_apply_concat(
        world,
        c6,
        resolve_updates(bridge.size_updates, map, UpdateKind::SpriteSize),
    );
    lemma_updates_effect(w6, bridge.size_updates, map, UpdateKind::SpriteSize);
    let w7 = world.apply_all(c7);

    lemma_apply_concat(world, c7, camera_commands(bridge.camera_position));
    lemma_camera_effect(w7, bridge.camera_position);
}

/// Each sprite that gets its entity adds one entry to the identifier map.
proof fn lemma_realized_len(
    map: Map<u32, u64>,
    ids: Map<u64, u32>,
    spawns: Seq<PendingSpawn>,
    entities: Seq<u64>,
    n: nat,
)
    requires
        n <= spawns.len(),
        n <= entities.len(),
        map.dom().finite(),
        forall|i: int, j: int| 0 <= i < j < spawns.len() ==> spawns[i].lua_id != spawns[j].lua_id,
        forall|i: int, j: int| 0 <= i < j < entities.len() ==> entities[i] != entities[j],
        forall|i: int| 0 <= i < spawns.len() ==> !map.contains_key(#[trigger] spawns[i].lua_id),
    ensures
        realized_map(map, spawns, entities, n).dom().finite(),
        realized_map(map, spawns, entities, n).len() == map.len() + n,
    decreases n,
{
    if n > 0 {
        lemma_realized_len(map, ids, spawns, entities, (n - 1) as nat);
        lemma_realized(map, ids, spawns, entities, (n - 1) as nat);
        let earlier = realized_map(map, spawns, entities, (n - 1) as nat);
        let id = spawns[n - 1].lua_id;
        assert(!earlier.contains_key(id)) by {
            if exists|k: int| 0 <= k < n - 1 && spawns[k].lua_id == id {
                let k = choose|k: int| 0 <= k < n - 1 && spawns[k].lua_id == id;
                assert(spawns[k].lua_id != spawns[n - 1].lua_id);
            }
        }
        assert(earlier.insert(id, entities[n - 1]).dom() =~= earlier.dom().insert(id));
    }
}

/// A tick keeps the bridge in order. The identifier map keeps every entry
/// it had and gains one for each waiting sprite, in the order in which
/// the sprites were asked for; it holds nothing else.
pub proof fn lemma_bridge_after(bridge: BridgeView, entities: Seq<u64>)
    requires
        bridge.wf(),
        fresh_entities(bridge, entities),
    ensures
        bridge_after(bridge, entities).wf(),
        one_to_one(map_after(bridge, entities)),
        forall|id: u32| #[trigger]
            map_after(bridge, entities).contains_key(id) <==> bridge.entity_map.contains_key(id)
                || bridge.pending(id),
        forall|id: u32|
            bridge.entity_map.contains_key(id) ==> #[trigger] map_after(bridge, entities)[id]
                == bridge.entity_map[id],
        forall|i: int|
            0 <= i < entities.len() ==> map_after(bridge, entities)[bridge.pending_spawns[i].lua_id]
                == #[trigger] entities[i],
        map_after(bridge, entities).len() == bridge.entity_map.len() + entities.len(),
{
    let spawns = bridge.pending_spawns;
    let n = entities.len();
    let map = map_after(bridge, entities);
    let ids = realized_ids(bridge.entity_ids, spawns, entities, n);
    lemma_realized(bridge.entity_map, bridge.entity_ids, spawns, entities, n);
    lemma_realized_len(bridge.entity_map, bridge.entity_ids, spawns, entities, n);
    let after = bridge_after(bridge, entities);
    assert(after.entity_map == map);
    assert(after.entity_ids == ids);
    assert forall|id: u32| #[trigger] map.contains_key(id) implies after.issued(id)
        && ids.contains_key(map[id]) && ids[map[id]] == id by {
        if exists|k: int| 0 <= k < n && spawns[k].lua_id == id {
            let k = choose|k: int| 0 <= k < n && spawns[k].lua_id == id;
            assert(map[spawns[k].lua_id] == entities[k]);
            assert(ids[entities[k]] == spawns[k].lua_id);
            assert(0 <= k < n && entities[k] == map[id]);
        } else {
            assert(bridge.entity_map.contains_key(id));
            let entity = bridge.entity_map[id];
            assert(map[id] == entity);
            assert(bridge.entity_ids.contains_key(entity));
            assert(!(exists|k: int| 0 <= k < n && entities[k] == entity)) by {
                if exists|k: int| 0 <= k < n && entities[k] == entity {
                    let k = choose|k: int| 0 <= k < n && entities[k] == entity;
                    assert(!bridge.entity_ids.contains_key(entities[k]));
                }
            }
            assert(ids[entity] == bridge.entity_ids[entity]);
        }
    }
    assert forall|entity: u64| #[trigger] ids.contains_key(entity) implies map.contains_key(
        ids[entity],
    ) && map[ids[entity]] == entity by {
        if exists|k: int| 0 <= k < n && entities[k] == entity {
            let k = choose|k: int| 0 <= k < n && entities[k] == entity;
            assert(ids[entities[k]] == spawns[k].lua_id);
            assert(map[spawns[k].lua_id] == entities[k]);
            assert(0 <= k < n && spawns[k].lua_id == ids[entity]);
        } else {
            assert(bridge.entity_ids.contains_key(entity));
            let id = bridge.entity_ids[entity];
            assert(ids[entity] == id);
            assert(bridge.entity_map.contains_key(id));
            assert(!(exists|k: int| 0 <= k < n && spawns[k].lua_id == id)) by {
                if exists|k: int| 0 <= k < n && spawns[k].lua_id == id {
                    let k = choose|k: int| 0 <= k < n && spawns[k].lua_id == id;
                    assert(!bridge.entity_map.contains_key(spawns[k].lua_id));
                }
            }
            assert(map[id] == bridge.entity_map[id]);
        }
    }
    assert(one_to_one(map)) by {
        assert forall|a: u32, b: u32|
            map.contains_key(a) && map.contains_key(b) && #[trigger] map[a]
                == #[trigger] map[b] implies a == b by {
            assert(ids[map[a]] == a);
            assert(ids[map[b]] == b);
        }
    }
    assert forall|id: u32| #[trigger]
        map.contains_key(id) <==> bridge.entity_map.contains_key(id) || bridge.pending(id) by {
        if bridge.pending(id) {
            let k = choose|k: int| 0 <= k < spawns.len() && spawns[k].lua_id == id;
            assert(0 <= k < n && spawns[k].lua_id == id);
        }
        if exists|k: int| 0 <= k < n && spawns[k].lua_id == id {
            let k = choose|k: int| 0 <= k < n && spawns[k].lua_id == id;
            assert(0 <= k < spawns.len() && spawns[k].lua_id == id);
        }
    }
    assert forall|id: u32| bridge.entity_map.contains_key(id) implies #[trigger] map[id]
        == bridge.entity_map[id] by {
        assert(!(exists|k: int| 0 <= k < n && spawns[k].lua_id == id)) by {
            if exists|k: int| 0 <= k < n && spawns[k].lua_id == id {
                let k = choose|k: int| 0 <= k < n && spawns[k].lua_id == id;
                assert(!bridge.entity_map.contains_key(spawns[k].lua_id));
            }
        }
    }
    assert forall|i: int| 0 <= i < entities.len() implies map[spawns[i].lua_id]
        == #[trigger] entities[i] by {
        assert(map[spawns[i].lua_id] == entities[i]);
    }
}

/// For all waiting sprites of a tick and the entities created for them:
/// the tick's first commands are the spawn commands, one for each sprite
/// in the order of the requests, each with the request's size, colour
/// and place; the host gets exactly one sprite for each, behind its
/// entity, and no other entity's sprite changes; the identifier map gains
/// exactly one entry for each and keeps every other entry as it was; the
/// identifiers rise in the order of the requests, the entities differ
/// from one another, and no sprite is left waiting.
pub proof fn lemma_sprites_realized(world: HostWorld, bridge: BridgeView, entities: Seq<u64>)
    requires
        bridge.wf(),
        fresh_entities(bridge, entities),
    ensures
        commands_of(bridge, entities).len() >= entities.len(),
        forall|i: int|
            0 <= i < entities.len() ==> #[trigger] commands_of(bridge, entities)[i]
                == (HostCommand::Spawn { entity: entities[i], spawn: bridge.pending_spawns[i] }),
        forall|i: int|
            0 <= i < entities.len() ==> world_after(world, bridge, entities).sprites.contains_key(
                #[trigger] entities[i],
            ) && world_after(world, bridge, entities).sprites[entities[i]]
                == bridge.pending_spawns[i],
        forall|entity: u64|
            !(exists|k: int| 0 <= k < entities.len() && entities[k] == entity) ==> (
            #[trigger] world_after(world, bridge, entities).sprites.contains_key(entity)
                <==> world.sprites.contains_key(entity)),
        forall|i: int|
            0 <= i < entities.len() ==> !bridge.entity_map.contains_key(
                bridge.pending_spawns[i].lua_id,
            ) && map_after(bridge, entities)[bridge.pending_spawns[i].lua_id]
                == #[trigger] entities[i],
        forall|id: u32| #[trigger]
            map_after(bridge, entities).contains_key(id) <==> bridge.entity_map.contains_key(id)
                || bridge.pending(id),
        forall|id: u32|
            bridge.entity_map.contains_key(id) ==> #[trigger] map_after(bridge, entities)[id]
                == bridge.entity_map[id],
        map_after(bridge, entities).len() == bridge.entity_map.len() + entities.len(),
        forall|i: int, j: int|
            0 <= i < j < entities.len() ==> bridge.pending_spawns[i].lua_id
                < bridge.pending_spawns[j].lua_id,
        forall|i: int, j: int| 0 <= i < j < entities.len() ==> entities[i] != entities[j],
        bridge_after(bridge, entities).pending_spawns.len() == 0,
        bridge_after(bridge, entities).wf(),
{
    lemma_bridge_after(bridge, entities);
    lemma_sprites_created(world, bridge.pending_spawns, entities, entities.len());
    let created = world_with_sprites(world, bridge.pending_spawns, entities, entities.len());
    assert forall|i: int| 0 <= i < entities.len() implies #[trigger] commands_of(
        bridge,
        entities,
    )[i] == (HostCommand::Spawn { entity: entities[i], spawn: bridge.pending_spawns[i] }) by {
        assert(spawn_commands(bridge.pending_spawns, entities)[i] == (HostCommand::Spawn {
            entity: entities[i],
            spawn: bridge.pending_spawns[i],
        }));
    }
    assert forall|i: int| 0 <= i < entities.len() implies world_after(
        world,
        bridge,
        entities,
    ).sprites.contains_key(#[trigger] entities[i]) && world_after(
        world,
        bridge,
        entities,
    ).sprites[entities[i]] == bridge.pending_spawns[i] by {
        assert(holds_sprite(created, entities[i], bridge.pending_spawns[i]));
    }
    assert forall|entity: u64|
        !(exists|k: int| 0 <= k < entities.len() && entities[k] == entity) implies (
        #[trigger] world_after(world, bridge, entities).sprites.contains_key(entity)
            <==> world.sprites.contains_key(entity)) by {
        assert(same_sprite(created, world, entity));
    }
    assert forall|i: int| 0 <= i < entities.len() implies !bridge.entity_map.contains_key(
        bridge.pending_spawns[i].lua_id,
    ) && map_after(bridge, entities)[bridge.pending_spawns[i].lua_id]
        == #[trigger] entities[i] by {
        assert(!bridge.entity_map.contains_key(bridge.pending_spawns[i].lua_id));
    }
}

/// The queue of marker requests for one role.
pub open spec fn marks_of(bridge: BridgeView, marker: Marker) -> Seq<u32> {
    match marker {
        Marker::Player => bridge.mark_player,
        Marker::CameraTarget => bridge.mark_camera_target,
        Marker::WorldElement => bridge.mark_world_element,
    }
}

/// The bridge after a script has asked for `id` to be given a role.
pub open spec fn with_mark(bridge: BridgeView, marker: Marker, id: u32) -> BridgeView {
    match marker {
        Marker::Player => bridge.with_player_mark(id),
        Marker::CameraTarget => bridge.with_camera_target_mark(id),
        Marker::WorldElement => bridge.with_world_element_mark(id),
    }
}

/// Marker requests only ever add roles.
pub proof fn lemma_markers_grow(
    markers: Set<(u64, Marker)>,
    ids: Seq<u32>,
    map: Map<u32, u64>,
    marker: Marker,
)
    ensures
        markers.subset_of(markers_after(markers, ids, map, marker)),
    decreases ids.len(),
{
    if ids.len() > 0 {
        lemma_markers_grow(markers, ids.drop_last(), map, marker);
    }
}

/// One more marker request at the end of a queue.
proof fn lemma_markers_push(
    markers: Set<(u64, Marker)>,
    ids: Seq<u32>,
    map: Map<u32, u64>,
    marker: Marker,
    id: u32,
)
    ensures
        markers_after(markers, ids.push(id), map, marker) == if map.contains_key(id) {
            markers_after(markers, ids, map, marker).insert((map[id], marker))
        } else {
            markers_after(markers, ids, map, marker)
        },
        resolve_marks(ids.push(id), map, marker) == if map.contains_key(id) {
            resolve_marks(ids, map, marker).push(HostCommand::Mark { entity: map[id], marker })
        } else {
            resolve_marks(ids, map, marker)
        },
{
    assert(ids.push(id).drop_last() =~= ids);
    assert(ids.push(id).last() == id);
}

/// A marker request for an identifier that has no entity, once this
/// tick's sprites have theirs, is dropped: the tick yields the same
/// commands and leaves the same bridge as if the request had never been
/// made. It is not kept for a later tick.
pub proof fn lemma_unresolved_mark_is_dropped(
    bridge: BridgeView,
    entities: Seq<u64>,
    marker: Marker,
    id: u32,
)
    requires
        !map_after(bridge, entities).contains_key(id),
    ensures
        commands_of(with_mark(bridge, marker, id), entities) == commands_of(bridge, entities),
        bridge_after(with_mark(bridge, marker, id), entities) == bridge_after(bridge, entities),
{
    let map = map_after(bridge, entities);
    assert(map_after(with_mark(bridge, marker, id), entities) == map);
    lemma_markers_push(Set::empty(), marks_of(bridge, marker), map, marker, id);
}

/// A marker request for an identifier that has its entity, from an
/// earlier tick or from this one, is carried out: after the tick the
/// entity has the role.
pub proof fn lemma_resolved_mark_applies(
    world: HostWorld,
    bridge: BridgeView,
    entities: Seq<u64>,
    marker: Marker,
    id: u32,
)
    requires
        map_after(bridge, entities).contains_key(id),
    ensures
        world_after(world, with_mark(bridge, marker, id), entities).markers.contains(
            (map_after(bridge, entities)[id], marker),
        ),
{
    let map = map_after(bridge, entities);
    let marked = with_mark(bridge, marker, id);
    assert(map_after(marked, entities) == map);
    let m1 = markers_after(world.markers, marked.mark_player, map, Marker::Player);
    let m2 = markers_after(m1, marked.mark_camera_target, map, Marker::CameraTarget);
    let m3 = markers_after(m2, marked.mark_world_element, map, Marker::WorldElement);
    assert(world_after(world, marked, entities).markers == m3);
    lemma_markers_grow(m1, marked.mark_camera_target, map, Marker::CameraTarget);
    lemma_markers_grow(m2, marked.mark_world_element, map, Marker::WorldElement);
    match marker {
        Marker::Player => {
            lemma_markers_push(world.markers, bridge.mark_player, map, marker, id);
            assert(m1.contains((map[id], marker)));
        },
        Marker::CameraTarget => {
            lemma_markers_push(m1, bridge.mark_camera_target, map, marker, id);
            assert(m2.contains((map[id], marker)));
        },
        Marker::WorldElement => {
            lemma_markers_push(m2, bridge.mark_world_element, map, marker, id);
        },
    }
}

/// Marking an entity that already has the role changes nothing: the
/// tick leaves the same store as if the request had not been made.
pub proof fn lemma_marking_again_changes_nothing(
    world: HostWorld,
    bridge: BridgeView,
    entities: Seq<u64>,
    marker: Marker,
    id: u32,
)
    requires
        map_after(bridge, entities).contains_key(id),
        world.markers.contains((map_after(bridge, entities)[id], marker)),
    ensures
        world_after(world, with_mark(bridge, marker, id), entities) == world_after(
            world,
            bridge,
            entities,
        ),
{
    let map = map_after(bridge, entities);
    let marked = with_mark(bridge, marker, id);
    assert(map_after(marked, entities) == map);
    let m1 = markers_after(world.markers, bridge.mark_player, map, Marker::Player);
    let m2 = markers_after(m1, bridge.mark_camera_target, map, Marker::CameraTarget);
    let m3 = markers_after(m2, bridge.mark_world_element, map, Marker::WorldElement);
    lemma_markers_grow(world.markers, bridge.mark_player, map, Marker::Player);
    lemma_markers_grow(m1, bridge.mark_camera_target, map, Marker::CameraTarget);
    lemma_markers_grow(m2, bridge.mark_world_element, map, Marker::WorldElement);
    match marker {
        Marker::Player => {
            lemma_markers_push(world.markers, bridge.mark_player, map, marker, id);
            assert(m1.insert((map[id], marker)) =~= m1);
        },
        Marker::CameraTarget => {
            lemma_markers_push(m1, bridge.mark_camera_target, map, marker, id);
            assert(m2.insert((map[id], marker)) =~= m2);
        },
        Marker::WorldElement => {
            lemma_markers_push(m2, bridge.mark_world_element, map, marker, id);
            assert(m3.insert((map[id], marker)) =~= m3);
        },
    }
}

/// Of the requests that a buffer holds for one identifier, the last one
/// decides the entity's value; without any, the value stays.
pub proof fn lemma_last_write_wins<W: Writes>(
    values: Map<u64, W::Payload>,
    requests: Seq<W::Request>,
    map: Map<u32, u64>,
    id: u32,
    by: W,
)
    requires
        one_to_one(map),
        map.contains_key(id),
    ensures
        match last_write(requests, id, by) {
            Some(payload) => written(values, requests, map, by).contains_key(map[id]) && written(
                values,
                requests,
                map,
                by,
            )[map[id]] == payload,
            None => written(values, requests, map, by).contains_key(map[id])
                == values.contains_key(map[id]) && written(values, requests, map, by)[map[id]]
                == values[map[id]],
        },
    decreases requests.len(),
{
    if requests.len() > 0 {
        lemma_last_write_wins(values, requests.drop_last(), map, id, by);
        let other = by.spec_id_of(requests.last());
        if other != id && map.contains_key(other) {
            assert(map[other] != map[id]);
        }
    }
}

/// Last write wins: where a tick's buffers hold several position,
/// velocity, health or size updates for one identifier that has its
/// entity, the entity ends the tick with the payload of the last of them.
pub proof fn lemma_last_update_wins(
    world: HostWorld,
    bridge: BridgeView,
    entities: Seq<u64>,
    id: u32,
)
    requires
        bridge.wf(),
        fresh_entities(bridge, entities),
        map_after(bridge, entities).contains_key(id),
    ensures
        last_write(bridge.position_updates, id, UpdateKind::Position) matches Some(
            payload,
        ) ==> world_after(
            world,
            bridge,
            entities,
        ).positions.contains_key(map_after(bridge, entities)[id]) && world_after(
            world,
            bridge,
            entities,
        ).positions[map_after(bridge, entities)[id]] == payload,
        last_write(bridge.velocity_updates, id, UpdateKind::Velocity) matches Some(
            payload,
        ) ==> world_after(
            world,
            bridge,
            entities,
        ).velocities.contains_key(map_after(bridge, entities)[id]) && world_after(
            world,
            bridge,
            entities,
        ).velocities[map_after(bridge, entities)[id]] == payload,
        last_write(bridge.health_updates, id, HealthUpdates) matches Some(current) ==> world_after(
            world,
            bridge,
            entities,
        ).health.contains_key(map_after(bridge, entities)[id]) && world_after(
            world,
            bridge,
            entities,
        ).health[map_after(bridge, entities)[id]] == current,
        last_write(bridge.size_updates, id, UpdateKind::SpriteSize) matches Some(
            payload,
        ) ==> world_after(
            world,
            bridge,
            entities,
        ).sizes.contains_key(map_after(bridge, entities)[id]) && world_after(
            world,
            bridge,
            entities,
        ).sizes[map_after(bridge, entities)[id]] == payload,
{
    lemma_bridge_after(bridge, entities);
    let map = map_after(bridge, entities);
    let created = world_with_sprites(world, bridge.pending_spawns, entities, entities.len());
    lemma_last_write_wins(
        created.positions,
        bridge.position_updates,
        map,
        id,
        UpdateKind::Position,
    );
    lemma_last_write_wins(
        world.velocities,
        bridge.velocity_updates,
        map,
        id,
        UpdateKind::Velocity,
    );
    lemma_last_write_wins(world.health, bridge.health_updates, map, id, HealthUpdates);
    lemma_last_write_wins(created.sizes, bridge.size_updates, map, id, UpdateKind::SpriteSize);
}

/// An update for an identifier that has no entity, once this tick's
/// sprites have theirs, is ignored: the tick yields the same commands as
/// if the update had never been queued.
pub proof fn lemma_unresolved_update_is_dropped(
    bridge: BridgeView,
    entities: Seq<u64>,
    id: u32,
    a: u32,
    b: u32,
)
    requires
        !map_after(bridge, entities).contains_key(id),
    ensures
        commands_of(bridge.with_position(id, a, b), entities) == commands_of(bridge, entities),
        commands_of(bridge.with_velocity(id, a, b), entities) == commands_of(bridge, entities),
        commands_of(bridge.with_health(id, a), entities) == commands_of(bridge, entities),
        commands_of(bridge.with_sprite_size(id, a, b), entities) == commands_of(bridge, entities),
{
    let map = map_after(bridge, entities);
    assert(bridge.position_updates.push((id, a, b)).drop_last() =~= bridge.position_updates);
    assert(bridge.velocity_updates.push((id, a, b)).drop_last() =~= bridge.velocity_updates);
    assert(bridge.health_updates.push((id, a)).drop_last() =~= bridge.health_updates);
    assert(bridge.size_updates.push((id, a, b)).drop_last() =~= bridge.size_updates);
    assert(map_after(bridge.with_position(id, a, b), entities) == map);
    assert(map_after(bridge.with_velocity(id, a, b), entities) == map);
    assert(map_after(bridge.with_health(id, a), entities) == map);
    assert(map_after(bridge.with_sprite_size(id, a, b), entities) == map);
}

/// A marker request made in the tick in which the sprite gets its entity,
/// or in any tick after it, is carried out: the sprite's entity ends that
/// tick with the role.
pub proof fn lemma_mark_after_spawn(
    world: HostWorld,
    bridge: BridgeView,
    entities: Seq<u64>,
    marker: Marker,
    k: int,
)
    requires
        bridge.wf(),
        fresh_entities(bridge, entities),
        0 <= k < entities.len(),
    ensures
        world_after(
            world,
            with_mark(bridge, marker, bridge.pending_spawns[k].lua_id),
            entities,
        ).markers.contains((entities[k], marker)),
        world_after(
            world,
            with_mark(bridge_after(bridge, entities), marker, bridge.pending_spawns[k].lua_id),
            Seq::empty(),
        ).markers.contains((entities[k], marker)),
{
    let id = bridge.pending_spawns[k].lua_id;
    lemma_bridge_after(bridge, entities);
    assert(map_after(bridge, entities)[id] == entities[k]);
    assert(bridge.pending(id));
    lemma_resolved_mark_applies(world, bridge, entities, marker, id);
    let later = bridge_after(bridge, entities);
    assert(map_after(later, Seq::empty()) == map_after(bridge, entities));
    lemma_resolved_mark_applies(world, later, Seq::empty(), marker, id);
}

/// Every buffer is applied once: a second run of the command processor
/// right after the first, with nothing queued in between, has nothing to
/// do and changes nothing.
pub proof fn lemma_second_run_is_empty(world: HostWorld, bridge: BridgeView, entities: Seq<u64>)
    ensures
        commands_of(bridge_after(bridge, entities), Seq::empty()) == Seq::<HostCommand>::empty(),
        bridge_after(bridge_after(bridge, entities), Seq::empty()) == bridge_after(
            bridge,
            entities,
        ),
        world.apply_all(commands_of(bridge_after(bridge, entities), Seq::empty())) == world,
{
    let later = bridge_after(bridge, entities);
    assert(commands_of(later, Seq::empty()) =~= Seq::<HostCommand>::empty());
}

} // verus!
