//! The world: the entities and everything they are made of.

use crate::ecs::bitset::{
    bitset_add, bitset_contains, bitset_members, bitset_new, bitset_remove, MAX_ENTITIES,
};
use crate::ecs::components::{
    BoxCollider, Camera, Collider, DirLight, Input, MeshRenderer, Outliner, PointLight, RigidBody,
    Spotlight, Transform,
};
use crate::ecs::resources::{ActiveCamera, InputCache, InputEventQueue, PhysicsWorld};
use crate::ecs::storage::{purged, ComponentStore};
use specs::BitSet;
use vstd::prelude::*;

verus! {

/// Whether `entity` is among the first `n` of `list`.
pub open spec fn listed_before(list: Seq<u32>, n: int, entity: u32) -> bool {
    exists|j: int| 0 <= j < n && list[j] == entity
}

/// Which entities there are. An entity is a number and nothing else; the
/// numbers are handed out in order and none is handed out twice.
pub struct Entities {
    alive: BitSet,
    next: u32,
    /// The entities that are to be destroyed, in the order in which that was
    /// asked for.
    doomed: Vec<u32>,
}

impl Entities {
    /// The entities that were created and not destroyed.
    pub closed spec fn alive(&self) -> Set<u32> {
        bitset_members(self.alive)
    }

    /// The entity that is created next.
    pub closed spec fn next(&self) -> u32 {
        self.next
    }

    /// The entities that the next `maintain` destroys, in the order in
    /// which their destruction was asked for.
    pub closed spec fn doomed(&self) -> Seq<u32> {
        self.doomed@
    }

    /// The invariant: the living entities were created, and the entities to
    /// be destroyed are alive and listed once.
    pub open spec fn wf(&self) -> bool {
        &&& self.next() <= MAX_ENTITIES
        &&& forall|e: u32| self.alive().contains(e) ==> e < self.next()
        &&& self.doomed().no_duplicates()
        &&& forall|i: int|
            0 <= i < self.doomed().len() ==> self.alive().contains(#[trigger] self.doomed()[i])
    }

    /// Number of entities that the next `maintain` destroys.
    pub fn doomed_count(&self) -> (count: usize)
        ensures
            count == self.doomed().len(),
    {
        self.doomed.len()
    }

    /// No entities.
    pub fn new() -> (entities: Entities)
        ensures
            entities.wf(),
            entities.alive() == Set::<u32>::empty(),
            entities.next() == 0,
            entities.doomed() == Seq::<u32>::empty(),
    {
        Entities { alive: bitset_new(), next: 0, doomed: Vec::new() }
    }

    /// Creates an entity: the least number that no entity had yet. There
    /// are no more than [`MAX_ENTITIES`] numbers; when they are used up,
    /// nothing is created.
    pub fn create(&mut self) -> (entity: Option<u32>)
        requires
            old(self).wf(),
        ensures
            final(self).wf(),
            final(self).doomed() == old(self).doomed(),
            old(self).next() == MAX_ENTITIES ==> entity.is_none() && final(self).alive() == old(self).alive() && final(self).next() == old(self).next(),
            old(self).next() < MAX_ENTITIES ==> entity == Some(old(self).next()) && final(self).alive() == old(self).alive().insert(old(self).next()) && final(self).next() == old(self).next() + 1,
    {
        if self.next >= MAX_ENTITIES {
            return None;
        }
        let entity = self.next;
        bitset_add(&mut self.alive, entity);
        self.next = self.next + 1;
        proof {
            assert forall|e: u32| self.alive().contains(e) implies e < self.next() by {
                if e != entity {
                    assert(old(self).alive().contains(e));
                }
            }
            assert forall|i: int| 0 <= i < self.doomed().len() implies self.alive().contains(
                #[trigger] self.doomed()[i],
            ) by {
                assert(old(self).alive().contains(old(self).doomed()[i]));
            }
        }
        Some(entity)
    }

    /// Whether `entity` was created and not destroyed.
    pub fn is_alive(&self, entity: u32) -> (alive: bool)
        ensures
            alive == self.alive().contains(entity),
    {
        bitset_contains(&self.alive, entity)
    }

    /// Asks for the destruction of `entity`. The entity lives on until the
    /// next `maintain`. Says whether there is such an entity.
    pub fn delete(&mut self, entity: u32) -> (found: bool)
        requires
            old(self).wf(),
        ensures
            final(self).wf(),
            found == old(self).alive().contains(entity),
            final(self).alive() == old(self).alive(),
            final(self).next() == old(self).next(),
            final(self).doomed() == (if found && !old(self).doomed().contains(entity) {
                old(self).doomed().push(entity)
            } else {
                old(self).doomed()
            }),
    {
        if !bitset_contains(&self.alive, entity) {
            return false;
        }
        let mut i: usize = 0;
        while i < self.doomed.len()
            invariant
                0 <= i <= self.doomed@.len(),
                *self == *old(self),
                self.wf(),
                self.alive().contains(entity),
                forall|j: int| 0 <= j < i ==> self.doomed@[j] != entity,
            decreases self.doomed@.len() - i,
        {
            if self.doomed[i] == entity {
                return true;
            }
            i += 1;
        }
        self.doomed.push(entity);
        proof {
            let before = old(self).doomed@;
            assert(!before.contains(entity));
            assert forall|k: int| 0 <= k < self.doomed().len() implies self.alive().contains(
                #[trigger] self.doomed()[k],
            ) by {
                if k < before.len() {
                    assert(old(self).alive().contains(old(self).doomed()[k]));
                }
            }
            assert forall|a: int, b: int|
                0 <= a < self.doomed@.len() && 0 <= b < self.doomed@.len() && a
                    != b implies self.doomed@[a] != self.doomed@[b] by {
                if a < before.len() && b < before.len() {
                    assert(before[a] != before[b]);
                }
            }
        }
        true
    }

    /// Destroys the entities whose destruction was asked for, and lists
    /// them in the order in which it was asked for.
    pub fn take_doomed(&mut self) -> (gone: Vec<u32>)
        requires
            old(self).wf(),
        ensures
            final(self).wf(),
            gone@ == old(self).doomed(),
            final(self).doomed() == Seq::<u32>::empty(),
            final(self).next() == old(self).next(),
            forall|e: u32|
                final(self).alive().contains(e) <==> old(self).alive().contains(e) && !old(self).doomed().contains(e),
    {
        let mut gone: Vec<u32> = Vec::new();
        core::mem::swap(&mut gone, &mut self.doomed);
        let mut i: usize = 0;
        while i < gone.len()
            invariant
                0 <= i <= gone@.len(),
                gone@ == old(self).doomed(),
                self.doomed@ == Seq::<u32>::empty(),
                self.next == old(self).next,
                forall|e: u32| #[trigger]
                    bitset_members(self.alive).contains(e) <==> old(self).alive().contains(e)
                        && !listed_before(gone@, i as int, e),
            decreases gone@.len() - i,
        {
            let ghost before = bitset_members(self.alive);
            let ghost was = i as int;
            bitset_remove(&mut self.alive, gone[i]);
            i += 1;
            proof {
                let now = bitset_members(self.alive);
                let first = old(self).alive();
                assert(now == before.remove(gone@[was]));
                assert forall|e: u32| #[trigger]
                    now.contains(e) <==> first.contains(e) && !listed_before(
                        gone@,
                        i as int,
                        e,
                    ) by {
                    assert(before.contains(e) <==> first.contains(e) && !listed_before(
                        gone@,
                        was,
                        e,
                    ));
                    if e == gone@[was] {
                        assert(listed_before(gone@, i as int, e));
                    } else {
                        if listed_before(gone@, i as int, e) {
                            let j = choose|j: int| 0 <= j < i && gone@[j] == e;
                            assert(j < was);
                            assert(listed_before(gone@, was, e));
                        }
                        if listed_before(gone@, was, e) {
                            let j = choose|j: int| 0 <= j < was && gone@[j] == e;
                            assert(listed_before(gone@, i as int, e));
                        }
                    }
                }
            }
        }
        proof {
            assert forall|e: u32|
                self.alive().contains(e) <==> old(self).alive().contains(e) && !old(self).doomed().contains(e) by {
                if old(self).doomed().contains(e) {
                    let j = choose|j: int| 0 <= j < gone@.len() && gone@[j] == e;
                }
                if listed_before(gone@, gone@.len() as int, e) {
                    let j = choose|j: int| 0 <= j < gone@.len() && gone@[j] == e;
                    assert(old(self).doomed()[j] == e);
                }
                if old(self).doomed().contains(e) {
                    assert(listed_before(gone@, gone@.len() as int, e));
                }
            }
            assert forall|e: u32| self.alive().contains(e) implies e < self.next() by {
                assert(old(self).alive().contains(e));
            }
        }
        gone
    }
}

/// The entities, their components, and the resources that systems share.
pub struct World {
    pub entities: Entities,
    pub transforms: ComponentStore<Transform>,
    pub mesh_renderers: ComponentStore<MeshRenderer>,
    pub box_colliders: ComponentStore<BoxCollider>,
    pub rigidbodies: ComponentStore<RigidBody>,
    pub colliders: ComponentStore<Collider>,
    pub cameras: ComponentStore<Camera>,
    pub dir_lights: ComponentStore<DirLight>,
    pub point_lights: ComponentStore<PointLight>,
    pub spotlights: ComponentStore<Spotlight>,
    pub inputs: ComponentStore<Input>,
    pub outliners: ComponentStore<Outliner>,
    pub active_camera: ActiveCamera,
    pub input_event_queue: InputEventQueue,
    pub input_cache: InputCache,
    pub physics: PhysicsWorld,
}

impl World {
    /// The invariant of the world: that of its entities and of each store.
    pub open spec fn wf(&self) -> bool {
        &&& self.entities.wf()
        &&& self.transforms.wf()
        &&& self.mesh_renderers.wf()
        &&& self.box_colliders.wf()
        &&& self.rigidbodies.wf()
        &&& self.colliders.wf()
        &&& self.cameras.wf()
        &&& self.dir_lights.wf()
        &&& self.point_lights.wf()
        &&& self.spotlights.wf()
        &&& self.inputs.wf()
        &&& self.outliners.wf()
    }

    /// Whether every journal has room for a note about each entity that
    /// the next `maintain` destroys.
    pub open spec fn room_to_maintain(&self) -> bool {
        let count = self.entities.doomed().len();
        &&& self.transforms.journal().has_room(count)
        &&& self.mesh_renderers.journal().has_room(count)
        &&& self.box_colliders.journal().has_room(count)
        &&& self.rigidbodies.journal().has_room(count)
        &&& self.colliders.journal().has_room(count)
        &&& self.cameras.journal().has_room(count)
        &&& self.dir_lights.journal().has_room(count)
        &&& self.point_lights.journal().has_room(count)
        &&& self.spotlights.journal().has_room(count)
        &&& self.inputs.journal().has_room(count)
        &&& self.outliners.journal().has_room(count)
    }

    /// Whether every journal has room for a note about each entity that
    /// the next `maintain` destroys.
    pub fn can_maintain(&self) -> (ok: bool)
        requires
            self.wf(),
        ensures
            ok == self.room_to_maintain(),
    {
        let count = self.entities.doomed_count();
        self.transforms.has_room(count) && self.mesh_renderers.has_room(count)
            && self.box_colliders.has_room(count) && self.rigidbodies.has_room(count)
            && self.colliders.has_room(count) && self.cameras.has_room(count)
            && self.dir_lights.has_room(count) && self.point_lights.has_room(count)
            && self.spotlights.has_room(count) && self.inputs.has_room(count)
            && self.outliners.has_room(count)
    }

    /// A world without entities, in whose journals a reader may fall
    /// `retention` events behind.
    pub fn new(retention: usize) -> (world: World)
        ensures
            world.wf(),
            world.entities.alive() == Set::<u32>::empty(),
            world.entities.next() == 0,
            world.transforms@ == Map::<u32, Transform>::empty(),
            world.rigidbodies@ == Map::<u32, RigidBody>::empty(),
            world.colliders@ == Map::<u32, Collider>::empty(),
            world.mesh_renderers@ == Map::<u32, MeshRenderer>::empty(),
            world.cameras@ == Map::<u32, Camera>::empty(),
            world.point_lights@ == Map::<u32, PointLight>::empty(),
            world.outliners@ == Map::<u32, Outliner>::empty(),
            world.active_camera.entity.is_none(),
    {
        World {
            entities: Entities::new(),
            transforms: ComponentStore::new(retention),
            mesh_renderers: ComponentStore::new(retention),
            box_colliders: ComponentStore::new(retention),
            rigidbodies: ComponentStore::new(retention),
            colliders: ComponentStore::new(retention),
            cameras: ComponentStore::new(retention),
            dir_lights: ComponentStore::new(retention),
            point_lights: ComponentStore::new(retention),
            spotlights: ComponentStore::new(retention),
            inputs: ComponentStore::new(retention),
            outliners: ComponentStore::new(retention),
            active_camera: ActiveCamera::default(),
            input_event_queue: InputEventQueue::default(),
            input_cache: InputCache::default(),
            physics: PhysicsWorld::default(),
        }
    }

    /// Creates an entity without components.
    pub fn create_entity(&mut self) -> (entity: Option<u32>)
        requires
            old(self).wf(),
        ensures
            final(self).wf(),
            final(self).entities.doomed() == old(self).entities.doomed(),
            old(self).entities.next() == MAX_ENTITIES ==> entity.is_none()
                && final(self).entities.alive() == old(self).entities.alive(),
            old(self).entities.next() < MAX_ENTITIES ==> entity == Some(old(self).entities.next())
                && final(self).entities.alive() == old(self).entities.alive().insert(
                old(self).entities.next(),
            ) && final(self).entities.next() == old(self).entities.next() + 1,
            final(self).transforms == old(self).transforms,
            final(self).rigidbodies == old(self).rigidbodies,
            final(self).colliders == old(self).colliders,
            final(self).physics == old(self).physics,
    {
        self.entities.create()
    }

    /// Asks for the destruction of `entity` at the next `maintain`.
    pub fn delete_entity(&mut self, entity: u32) -> (found: bool)
        requires
            old(self).wf(),
        ensures
            final(self).wf(),
            found == old(self).entities.alive().contains(entity),
            final(self).entities.alive() == old(self).entities.alive(),
            final(self).entities.doomed() == (if found && !old(self).entities.doomed().contains(
                entity,
            ) {
                old(self).entities.doomed().push(entity)
            } else {
                old(self).entities.doomed()
            }),
            final(self).transforms == old(self).transforms,
            final(self).rigidbodies == old(self).rigidbodies,
            final(self).colliders == old(self).colliders,
            final(self).physics == old(self).physics,
    {
        self.entities.delete(entity)
    }

    /// Destroys the entities whose destruction was asked for and takes
    /// their components out of every store, with a note in each journal.
    /// Lists the destroyed entities.
    ///
    /// Every journal must have room for these notes, so that nothing of a
    /// destroyed entity stays behind: see [`World::can_maintain`].
    pub fn maintain(&mut self) -> (gone: Vec<u32>)
        requires
            old(self).wf(),
            old(self).room_to_maintain(),
        ensures
            final(self).wf(),
            gone@ == old(self).entities.doomed(),
            forall|i: int|
                0 <= i < gone@.len() ==> {
                    let e = #[trigger] gone@[i];
                    &&& !final(self).transforms@.contains_key(e)
                    &&& !final(self).mesh_renderers@.contains_key(e)
                    &&& !final(self).box_colliders@.contains_key(e)
                    &&& !final(self).rigidbodies@.contains_key(e)
                    &&& !final(self).colliders@.contains_key(e)
                    &&& !final(self).cameras@.contains_key(e)
                    &&& !final(self).dir_lights@.contains_key(e)
                    &&& !final(self).point_lights@.contains_key(e)
                    &&& !final(self).spotlights@.contains_key(e)
                    &&& !final(self).inputs@.contains_key(e)
                    &&& !final(self).outliners@.contains_key(e)
                },
            final(self).entities.doomed() == Seq::<u32>::empty(),
            forall|e: u32|
                final(self).entities.alive().contains(e) <==> old(self).entities.alive().contains(
                    e,
                ) && !gone@.contains(e),
            (final(self).transforms@, final(self).transforms.journal()) == purged(
                old(self).transforms@,
                old(self).transforms.journal(),
                gone@,
                gone@.len() as int,
            ),
            (final(self).rigidbodies@, final(self).rigidbodies.journal()) == purged(
                old(self).rigidbodies@,
                old(self).rigidbodies.journal(),
                gone@,
                gone@.len() as int,
            ),
            (final(self).colliders@, final(self).colliders.journal()) == purged(
                old(self).colliders@,
                old(self).colliders.journal(),
                gone@,
                gone@.len() as int,
            ),
            (final(self).mesh_renderers@, final(self).mesh_renderers.journal()) == purged(
                old(self).mesh_renderers@,
                old(self).mesh_renderers.journal(),
                gone@,
                gone@.len() as int,
            ),
            (final(self).box_colliders@, final(self).box_colliders.journal()) == purged(
                old(self).box_colliders@,
                old(self).box_colliders.journal(),
                gone@,
                gone@.len() as int,
            ),
            (final(self).cameras@, final(self).cameras.journal()) == purged(
                old(self).cameras@,
                old(self).cameras.journal(),
                gone@,
                gone@.len() as int,
            ),
            (final(self).dir_lights@, final(self).dir_lights.journal()) == purged(
                old(self).dir_lights@,
                old(self).dir_lights.journal(),
                gone@,
                gone@.len() as int,
            ),
            (final(self).point_lights@, final(self).point_lights.journal()) == purged(
                old(self).point_lights@,
                old(self).point_lights.journal(),
                gone@,
                gone@.len() as int,
            ),
            (final(self).spotlights@, final(self).spotlights.journal()) == purged(
                old(self).spotlights@,
                old(self).spotlights.journal(),
                gone@,
                gone@.len() as int,
            ),
            (final(self).inputs@, final(self).inputs.journal()) == purged(
                old(self).inputs@,
                old(self).inputs.journal(),
                gone@,
                gone@.len() as int,
            ),
            (final(self).outliners@, final(self).outliners.journal()) == purged(
                old(self).outliners@,
                old(self).outliners.journal(),
                gone@,
                gone@.len() as int,
            ),
            final(self).physics == old(self).physics,
            final(self).active_camera == old(self).active_camera,
    {
        let gone = self.entities.take_doomed();
        self.transforms.purge(&gone);
        self.mesh_renderers.purge(&gone);
        self.box_colliders.purge(&gone);
        self.rigidbodies.purge(&gone);
        self.colliders.purge(&gone);
        self.cameras.purge(&gone);
        self.dir_lights.purge(&gone);
        self.point_lights.purge(&gone);
        self.spotlights.purge(&gone);
        self.inputs.purge(&gone);
        self.outliners.purge(&gone);
        gone
    }
}

} // verus!
