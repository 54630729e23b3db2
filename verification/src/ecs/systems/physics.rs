//! The systems that keep the physics simulation and the components in step.
//!
//! The simulation itself is not in this crate. A system here reads what
//! changed and says what has to be done to the simulation, as a list of
//! commands; [`PhysicsWorld::resolve_body`] and
//! [`PhysicsWorld::resolve_collider`] turn a command into the one thing to
//! do to the simulation now, looking up and updating the handles. The host
//! does that thing and reports a new handle back.

use crate::ecs::bitset::{
    bitset_add, bitset_contains, bitset_members, bitset_new, strictly_increasing, MAX_ENTITIES,
};
use crate::ecs::channel::{lemma_one_more_event, ComponentEvent, ReaderId};
use crate::ecs::components::{Collider, RigidBody, Transform};
use crate::ecs::join::{ascending, lemma_ascending_below, lemma_ascending_unique, retain_present, sorted_members};
use crate::ecs::resources::PhysicsWorld;
use crate::ecs::storage::{events_in_range, ComponentStore};
use crate::math::Vec3;
use nphysics3d::object::{DefaultBodyHandle, DefaultColliderHandle};
use specs::BitSet;
use vstd::prelude::*;

verus! {

/// The entities of which `events` says that a component was inserted.
pub open spec fn inserted_in(events: Seq<ComponentEvent>) -> Set<u32> {
    Set::new(|entity: u32| events.contains(ComponentEvent::Inserted(entity)))
}

/// The entities of which `events` says that the component was modified.
pub open spec fn modified_in(events: Seq<ComponentEvent>) -> Set<u32> {
    Set::new(|entity: u32| events.contains(ComponentEvent::Modified(entity)))
}

/// The entities of which `events` says that the component was removed.
pub open spec fn removed_in(events: Seq<ComponentEvent>) -> Set<u32> {
    Set::new(|entity: u32| events.contains(ComponentEvent::Removed(entity)))
}

/// Sorts the entities of `events` by what happened to them: inserted,
/// modified, removed. An entity is in each set that an event puts it in,
/// however often.
pub fn iterate_component_events(events: &Vec<ComponentEvent>) -> (sets: (BitSet, BitSet, BitSet))
    requires
        events_in_range(events@),
    ensures
        bitset_members(sets.0) == inserted_in(events@),
        bitset_members(sets.1) == modified_in(events@),
        bitset_members(sets.2) == removed_in(events@),
{
    let mut inserted = bitset_new();
    let mut modified = bitset_new();
    let mut removed = bitset_new();
    let mut i: usize = 0;
    while i < events.len()
        invariant
            0 <= i <= events@.len(),
            events_in_range(events@),
            bitset_members(inserted) == inserted_in(events@.subrange(0, i as int)),
            bitset_members(modified) == modified_in(events@.subrange(0, i as int)),
            bitset_members(removed) == removed_in(events@.subrange(0, i as int)),
        decreases events@.len() - i,
    {
        let ghost seen = events@.subrange(0, i as int);
        let ghost next = events@.subrange(0, i as int + 1);
        proof {
            assert(next =~= seen.push(events@[i as int]));
            assert(events@[i as int].spec_entity() < MAX_ENTITIES);
            lemma_one_more_event(events@, i as int);
        }
        match events[i] {
            ComponentEvent::Inserted(id) => {
                bitset_add(&mut inserted, id);
                proof {
                    assert(bitset_members(inserted) =~= inserted_in(next));
                    assert(modified_in(seen) =~= modified_in(next));
                    assert(removed_in(seen) =~= removed_in(next));
                }
            },
            ComponentEvent::Modified(id) => {
                bitset_add(&mut modified, id);
                proof {
                    assert(bitset_members(modified) =~= modified_in(next));
                    assert(inserted_in(seen) =~= inserted_in(next));
                    assert(removed_in(seen) =~= removed_in(next));
                }
            },
            ComponentEvent::Removed(id) => {
                bitset_add(&mut removed, id);
                proof {
                    assert(bitset_members(removed) =~= removed_in(next));
                    assert(inserted_in(seen) =~= inserted_in(next));
                    assert(modified_in(seen) =~= modified_in(next));
                }
            },
        }
        i += 1;
    }
    proof {
        assert(events@.subrange(0, events@.len() as int) =~= events@);
    }
    (inserted, modified, removed)
}

/// Decides when the simulation takes its next step. Time is counted in
/// nanoseconds from any fixed moment.
#[derive(Clone, Copy, Debug, PartialEq, Eq)]
pub struct PhysicsStepperSystem {
    tickrate: u32,
    last_time: u64,
}

/// Number of nanoseconds in a second.
pub const NANOS_PER_SECOND: u64 = 1_000_000_000;

impl PhysicsStepperSystem {
    /// Number of steps per second.
    pub closed spec fn spec_tickrate(&self) -> u32 {
        self.tickrate
    }

    /// The time of the last step; 0 before the first one.
    pub closed spec fn spec_last_time(&self) -> u64 {
        self.last_time
    }

    /// The length of one step in nanoseconds: the `tickrate`-th part of a
    /// second, rounded down. There is no step at a rate of zero.
    pub open spec fn spec_timestep(&self) -> Option<u64> {
        if self.spec_tickrate() == 0 {
            None
        } else {
            Some((NANOS_PER_SECOND / self.spec_tickrate() as u64) as u64)
        }
    }

    /// Whether a step is due at the time `now`: whether at least one
    /// timestep has passed since the last step.
    pub open spec fn due(&self, now: u64) -> bool {
        match self.spec_timestep() {
            Some(timestep) => now >= self.spec_last_time() && now - self.spec_last_time()
                >= timestep,
            None => false,
        }
    }

    /// A stepper for `tickrate` steps per second that has not stepped yet.
    pub fn new(tickrate: u32) -> (stepper: Self)
        ensures
            stepper.spec_tickrate() == tickrate,
            stepper.spec_last_time() == 0,
    {
        PhysicsStepperSystem { tickrate, last_time: 0 }
    }

    /// Changes the number of steps per second.
    pub fn set_tickrate(&mut self, tickrate: u32)
        ensures
            final(self).spec_tickrate() == tickrate,
            final(self).spec_last_time() == old(self).spec_last_time(),
    {
        self.tickrate = tickrate;
    }

    /// The length of one step in nanoseconds; the simulation is to be set
    /// to it.
    pub fn timestep(&self) -> (timestep: Option<u64>)
        ensures
            timestep == self.spec_timestep(),
    {
        if self.tickrate == 0 {
            None
        } else {
            Some(NANOS_PER_SECOND / (self.tickrate as u64))
        }
    }

    /// Says whether the simulation is to take one step at the time `now`,
    /// and notes the step. A step is taken where one is due; it is one step
    /// however much time has passed, and none where less than a timestep
    /// has.
    pub fn run(&mut self, now: u64) -> (step: bool)
        ensures
            step == old(self).due(now),
            final(self).spec_tickrate() == old(self).spec_tickrate(),
            final(self).spec_last_time() == (if step {
                now
            } else {
                old(self).spec_last_time()
            }),
    {
        match self.timestep() {
            Some(timestep) => {
                if now >= self.last_time && now - self.last_time >= timestep {
                    self.last_time = now;
                    true
                } else {
                    false
                }
            },
            None => false,
        }
    }
}

/// What is to be done about the body of an entity.
#[derive(Clone, Copy, Debug, PartialEq, Eq, Structural)]
pub enum BodyCommand {
    /// Build a body from the transform and the rigid body of the entity.
    Create(u32),
    /// Hand the mass of the rigid body of the entity to its body. The mass
    /// is all that reaches a body after it was built: the other fields of a
    /// rigid body that was modified stay with the component.
    UpdateMass(u32),
    /// Move the body of the entity to where its transform says.
    UpdatePose(u32),
    /// Take the body of the entity out of the simulation.
    Remove(u32),
}

/// The one thing to do to the simulation for a command.
#[derive(Clone, Copy, Debug, PartialEq, Eq)]
pub enum BodyAction {
    /// Take the body `stale` out, if there is one; build the body of
    /// `entity`, tagged with the entity; report its handle with
    /// [`PhysicsWorld::insert_body`].
    Create { entity: u32, stale: Option<DefaultBodyHandle> },
    /// Set the mass of the body `handle` to that of the rigid body of
    /// `entity`.
    SetMass { entity: u32, handle: DefaultBodyHandle },
    /// Set the position and the rotation of the body `handle` to those of
    /// the transform of `entity`.
    SetPose { entity: u32, handle: DefaultBodyHandle },
    /// Take the body `handle` out of the simulation.
    Remove { entity: u32, handle: DefaultBodyHandle },
    /// Nothing: the entity has no body.
    Skip,
}

/// `ids`, each turned into the command `make` of it.
pub open spec fn commands_for<C>(ids: Seq<u32>, make: spec_fn(u32) -> C) -> Seq<C> {
    Seq::new(ids.len(), |i: int| make(ids[i]))
}

/// The list of what is to be done about bodies, given the entities whose
/// rigid body was inserted, modified and removed, the entities whose
/// transform was modified, and the entities that have a transform and a
/// rigid body now.
///
/// First come the bodies to build: for the entities whose rigid body was
/// inserted and that have a transform and a rigid body. Then the masses to
/// hand over: for the entities whose rigid body was modified and is still
/// there. Then the poses: for the entities whose transform was modified
/// and is still there. Last the bodies to take out: for the entities whose
/// rigid body was removed, but for those whose body was built anew in this
/// very list. Within each part the entities come in increasing order.
pub open spec fn body_agenda(
    inserted: Set<u32>,
    modified: Set<u32>,
    removed: Set<u32>,
    moved: Set<u32>,
    transforms: Set<u32>,
    rigidbodies: Set<u32>,
) -> Seq<BodyCommand> {
    let built = inserted.intersect(transforms).intersect(rigidbodies);
    commands_for(ascending(built), |e: u32| BodyCommand::Create(e)) + commands_for(
        ascending(modified.intersect(rigidbodies)),
        |e: u32| BodyCommand::UpdateMass(e),
    ) + commands_for(ascending(moved.intersect(transforms)), |e: u32| BodyCommand::UpdatePose(e))
        + commands_for(ascending(removed.difference(built)), |e: u32| BodyCommand::Remove(e))
}

/// What a command asks for, without the entity.
#[derive(Clone, Copy)]
enum Task {
    Create,
    UpdateMass,
    UpdatePose,
    Remove,
}

impl Task {
    /// The command that asks for this of `entity`.
    closed spec fn spec_of(self, entity: u32) -> BodyCommand {
        match self {
            Task::Create => BodyCommand::Create(entity),
            Task::UpdateMass => BodyCommand::UpdateMass(entity),
            Task::UpdatePose => BodyCommand::UpdatePose(entity),
            Task::Remove => BodyCommand::Remove(entity),
        }
    }

    /// The command that asks for this of `entity`.
    fn of(self, entity: u32) -> (command: BodyCommand)
        ensures
            command == self.spec_of(entity),
    {
        match self {
            Task::Create => BodyCommand::Create(entity),
            Task::UpdateMass => BodyCommand::UpdateMass(entity),
            Task::UpdatePose => BodyCommand::UpdatePose(entity),
            Task::Remove => BodyCommand::Remove(entity),
        }
    }
}

/// Appends to `agenda` the command that asks `task` of each of `ids`.
fn push_body_commands(agenda: &mut Vec<BodyCommand>, ids: &Vec<u32>, task: Task)
    ensures
        final(agenda)@ == old(agenda)@ + commands_for(ids@, |e: u32| task.spec_of(e)),
{
    let mut i: usize = 0;
    while i < ids.len()
        invariant
            0 <= i <= ids@.len(),
            agenda@ == old(agenda)@ + commands_for(
                ids@.subrange(0, i as int),
                |e: u32| task.spec_of(e),
            ),
        decreases ids@.len() - i,
    {
        agenda.push(task.of(ids[i]));
        i += 1;
        proof {
            assert(agenda@ =~= old(agenda)@ + commands_for(
                ids@.subrange(0, i as int),
                |e: u32| task.spec_of(e),
            ));
        }
    }
    proof {
        assert(ids@.subrange(0, ids@.len() as int) =~= ids@);
    }
}

/// Those of `ids` that are not in `excluded`, in the same order.
fn without(ids: &Vec<u32>, excluded: &BitSet) -> (kept: Vec<u32>)
    requires
        strictly_increasing(ids@),
    ensures
        strictly_increasing(kept@),
        forall|id: u32|
            #![trigger kept@.contains(id)]
            #![trigger ids@.contains(id)]
            kept@.contains(id) <==> ids@.contains(id) && !bitset_members(*excluded).contains(id),
{
    let mut kept: Vec<u32> = Vec::new();
    let mut i: usize = 0;
    while i < ids.len()
        invariant
            0 <= i <= ids@.len(),
            strictly_increasing(ids@),
            strictly_increasing(kept@),
            forall|id: u32|
                kept@.contains(id) <==> (exists|j: int| 0 <= j < i && ids@[j] == id)
                    && !bitset_members(*excluded).contains(id),
            kept@.len() > 0 && i < ids@.len() ==> kept@[kept@.len() - 1] < ids@[i as int],
        decreases ids@.len() - i,
    {
        let id = ids[i];
        if !bitset_contains(excluded, id) {
            let ghost before = kept@;
            kept.push(id);
            proof {
                assert forall|a: int, b: int| 0 <= a < b < kept@.len() implies kept@[a]
                    < kept@[b] by {
                    assert(kept@[a] == before[a]);
                    if b == before.len() {
                        if a < before.len() - 1 {
                            assert(before[a] < before[before.len() - 1]);
                        }
                    } else {
                        assert(kept@[b] == before[b]);
                    }
                }
                assert forall|x: u32|
                    kept@.contains(x) <==> (exists|j: int| 0 <= j < i + 1 && ids@[j] == x)
                        && !bitset_members(*excluded).contains(x) by {
                    if kept@.contains(x) {
                        let k = choose|k: int| 0 <= k < kept@.len() && kept@[k] == x;
                        if k < before.len() {
                            assert(before[k] == x);
                            assert(before.contains(x));
                        } else {
                            assert(ids@[i as int] == x);
                        }
                    }
                    if (exists|j: int| 0 <= j < i + 1 && ids@[j] == x) && !bitset_members(
                        *excluded,
                    ).contains(x) {
                        let j = choose|j: int| 0 <= j < i + 1 && ids@[j] == x;
                        if j < i {
                            assert(before.contains(x));
                            let k = choose|k: int| 0 <= k < before.len() && before[k] == x;
                            assert(kept@[k] == x);
                        } else {
                            assert(kept@[before.len() as int] == x);
                        }
                    }
                }
            }
        } else {
            proof {
                assert forall|x: u32|
                    kept@.contains(x) <==> (exists|j: int| 0 <= j < i + 1 && ids@[j] == x)
                        && !bitset_members(*excluded).contains(x) by {
                    if (exists|j: int| 0 <= j < i + 1 && ids@[j] == x) && !bitset_members(
                        *excluded,
                    ).contains(x) {
                        let j = choose|j: int| 0 <= j < i + 1 && ids@[j] == x;
                        assert(j < i);
                    }
                }
            }
        }
        i += 1;
    }
    proof {
        assert forall|id: u32|
            kept@.contains(id) <==> ids@.contains(id) && !bitset_members(*excluded).contains(
                id,
            ) by {
            if kept@.contains(id) {
                let j = choose|j: int| 0 <= j < ids@.len() && ids@[j] == id;
                assert(ids@.contains(id));
            }
            if ids@.contains(id) {
                let j = choose|j: int| 0 <= j < ids@.len() && ids@[j] == id;
            }
        }
    }
    kept
}

/// The set that holds the indices of `ids`.
fn set_of(ids: &Vec<u32>) -> (set: BitSet)
    requires
        forall|i: int| 0 <= i < ids@.len() ==> ids@[i] < MAX_ENTITIES,
    ensures
        forall|id: u32| bitset_members(set).contains(id) <==> ids@.contains(id),
{
    let mut set = bitset_new();
    let mut i: usize = 0;
    while i < ids.len()
        invariant
            0 <= i <= ids@.len(),
            forall|k: int| 0 <= k < ids@.len() ==> ids@[k] < MAX_ENTITIES,
            forall|id: u32|
                bitset_members(set).contains(id) <==> exists|j: int| 0 <= j < i && ids@[j] == id,
        decreases ids@.len() - i,
    {
        bitset_add(&mut set, ids[i]);
        i += 1;
    }
    set
}

/// Tells the simulation of rigid bodies that came, changed and went, and
/// of transforms that gameplay code changed.
pub struct SyncBodiesToPhysicsSystem {
    pub transforms_reader_id: ReaderId,
    pub rigidbodies_reader_id: ReaderId,
}

impl SyncBodiesToPhysicsSystem {
    /// Reads what happened to rigid bodies and transforms since the last
    /// run and lists what is to be done about bodies: see [`body_agenda`].
    /// Both readers are moved past what they read.
    pub fn run(
        &mut self,
        transforms: &mut ComponentStore<Transform>,
        rigidbodies: &mut ComponentStore<RigidBody>,
    ) -> (agenda: Vec<BodyCommand>)
        requires
            old(transforms).wf(),
            old(rigidbodies).wf(),
            old(transforms).registered(&old(self).transforms_reader_id),
            old(rigidbodies).registered(&old(self).rigidbodies_reader_id),
        ensures
            final(transforms).wf(),
            final(rigidbodies).wf(),
            final(transforms)@ == old(transforms)@,
            final(rigidbodies)@ == old(rigidbodies)@,
            final(transforms).journal() == old(transforms).journal().read(
                old(self).transforms_reader_id.spec_slot(),
            ),
            final(rigidbodies).journal() == old(rigidbodies).journal().read(
                old(self).rigidbodies_reader_id.spec_slot(),
            ),
            final(self).transforms_reader_id == old(self).transforms_reader_id,
            final(self).rigidbodies_reader_id == old(self).rigidbodies_reader_id,
            agenda@ == body_agenda(
                inserted_in(
                    old(rigidbodies).journal().pending(old(self).rigidbodies_reader_id.spec_slot()),
                ),
                modified_in(
                    old(rigidbodies).journal().pending(old(self).rigidbodies_reader_id.spec_slot()),
                ),
                removed_in(
                    old(rigidbodies).journal().pending(old(self).rigidbodies_reader_id.spec_slot()),
                ),
                modified_in(
                    old(transforms).journal().pending(old(self).transforms_reader_id.spec_slot()),
                ),
                old(transforms)@.dom(),
                old(rigidbodies)@.dom(),
            ),
    {
        let rb_events = rigidbodies.read(&self.rigidbodies_reader_id);
        let tr_events = transforms.read(&self.transforms_reader_id);
        let (inserted_rb, modified_rb, removed_rb) = iterate_component_events(&rb_events);
        let (_inserted_tr, modified_tr, _removed_tr) = iterate_component_events(&tr_events);
        let ghost inserted = inserted_in(rb_events@);
        let ghost modified = modified_in(rb_events@);
        let ghost removed = removed_in(rb_events@);
        let ghost moved = modified_in(tr_events@);
        let ghost built_set = inserted.intersect(transforms@.dom()).intersect(rigidbodies@.dom());

        // Inserted rigidbodies
        let inserted_ids = sorted_members(&inserted_rb);
        proof {
            lemma_ascending_below(inserted, 0x1_0000_0000);
        }
        let with_transform = retain_present(&inserted_ids, transforms);
        let built = retain_present(&with_transform, rigidbodies);
        proof {
            lemma_ascending_unique(built@, built_set, 0x1_0000_0000);
            assert forall|i: int| 0 <= i < built@.len() implies built@[i] < MAX_ENTITIES by {
                assert(built@.contains(built@[i]));
                rigidbodies.lemma_wf();
            }
        }

        // Modified rigidbodies
        let modified_ids = sorted_members(&modified_rb);
        proof {
            lemma_ascending_below(modified, 0x1_0000_0000);
        }
        let changed = retain_present(&modified_ids, rigidbodies);
        proof {
            lemma_ascending_unique(changed@, modified.intersect(rigidbodies@.dom()), 0x1_0000_0000);
        }

        // Modified transforms
        let moved_ids = sorted_members(&modified_tr);
        proof {
            lemma_ascending_below(moved, 0x1_0000_0000);
        }
        let posed = retain_present(&moved_ids, transforms);
        proof {
            lemma_ascending_unique(posed@, moved.intersect(transforms@.dom()), 0x1_0000_0000);
        }

        // Removed rigidbodies
        let removed_ids = sorted_members(&removed_rb);
        proof {
            lemma_ascending_below(removed, 0x1_0000_0000);
        }
        let built_now = set_of(&built);
        let gone = without(&removed_ids, &built_now);
        proof {
            lemma_ascending_unique(gone@, removed.difference(built_set), 0x1_0000_0000);
        }

        let mut agenda: Vec<BodyCommand> = Vec::new();
        push_body_commands(&mut agenda, &built, Task::Create);
        push_body_commands(&mut agenda, &changed, Task::UpdateMass);
        push_body_commands(&mut agenda, &posed, Task::UpdatePose);
        push_body_commands(&mut agenda, &gone, Task::Remove);
        proof {
            assert(commands_for(built@, |e: u32| Task::Create.spec_of(e)) =~= commands_for(
                built@,
                |e: u32| BodyCommand::Create(e),
            ));
            assert(commands_for(changed@, |e: u32| Task::UpdateMass.spec_of(e)) =~= commands_for(
                changed@,
                |e: u32| BodyCommand::UpdateMass(e),
            ));
            assert(commands_for(posed@, |e: u32| Task::UpdatePose.spec_of(e)) =~= commands_for(
                posed@,
                |e: u32| BodyCommand::UpdatePose(e),
            ));
            assert(commands_for(gone@, |e: u32| Task::Remove.spec_of(e)) =~= commands_for(
                gone@,
                |e: u32| BodyCommand::Remove(e),
            ));
            assert(agenda@ =~= body_agenda(
                inserted,
                modified,
                removed,
                moved,
                transforms@.dom(),
                rigidbodies@.dom(),
            ));
        }
        agenda
    }
}

/// The handle that `handles` has for `entity`, if any.
pub open spec fn handle_of<H>(handles: Map<u32, H>, entity: u32) -> Option<H> {
    if handles.contains_key(entity) {
        Some(handles[entity])
    } else {
        None
    }
}

impl PhysicsWorld {
    /// What `resolve_body` answers to `command`, given the handles of the
    /// bodies.
    pub open spec fn body_action(
        handles: Map<u32, DefaultBodyHandle>,
        command: BodyCommand,
    ) -> BodyAction {
        match command {
            BodyCommand::Create(entity) => BodyAction::Create {
                entity,
                stale: handle_of(handles, entity),
            },
            BodyCommand::UpdateMass(entity) => match handle_of(handles, entity) {
                Some(handle) => BodyAction::SetMass { entity, handle },
                None => BodyAction::Skip,
            },
            BodyCommand::UpdatePose(entity) => match handle_of(handles, entity) {
                Some(handle) => BodyAction::SetPose { entity, handle },
                None => BodyAction::Skip,
            },
            BodyCommand::Remove(entity) => match handle_of(handles, entity) {
                Some(handle) => BodyAction::Remove { entity, handle },
                None => BodyAction::Skip,
            },
        }
    }

    /// The handles of the bodies after `command` was resolved: building and
    /// taking out forget the handle of the entity, the rest changes
    /// nothing.
    pub open spec fn body_handles_after(
        handles: Map<u32, DefaultBodyHandle>,
        command: BodyCommand,
    ) -> Map<u32, DefaultBodyHandle> {
        match command {
            BodyCommand::Create(entity) => handles.remove(entity),
            BodyCommand::Remove(entity) => handles.remove(entity),
            _ => handles,
        }
    }

    /// Turns `command` into the one thing to do to the simulation now.
    ///
    /// A body that is to be built replaces the one that the entity has, if
    /// it has one: the old handle is handed out as stale and forgotten,
    /// so that no entity ever has two bodies. A body that is to be changed
    /// or taken out and that is not there is skipped; taking out a body
    /// twice changes nothing the second time.
    pub fn resolve_body(&mut self, command: BodyCommand) -> (action: BodyAction)
        ensures
            action == Self::body_action(old(self).body_handles@, command),
            final(self).body_handles@ == Self::body_handles_after(
                old(self).body_handles@,
                command,
            ),
            final(self).collider_handles@ == old(self).collider_handles@,
            action == BodyAction::Skip ==> final(self).body_handles@ == old(self).body_handles@,
    {
        match command {
            BodyCommand::Create(entity) => {
                let stale = self.remove_body(entity);
                BodyAction::Create { entity, stale }
            },
            BodyCommand::UpdateMass(entity) => match self.body_handle(entity) {
                Some(handle) => BodyAction::SetMass { entity, handle },
                None => BodyAction::Skip,
            },
            BodyCommand::UpdatePose(entity) => match self.body_handle(entity) {
                Some(handle) => BodyAction::SetPose { entity, handle },
                None => BodyAction::Skip,
            },
            BodyCommand::Remove(entity) => match self.remove_body(entity) {
                Some(handle) => BodyAction::Remove { entity, handle },
                None => BodyAction::Skip,
            },
        }
    }
}

/// Where the simulation has a body: its entity, and the handle to ask
/// with.
#[derive(Clone, Copy, Debug, PartialEq, Eq)]
pub struct PoseRequest {
    pub entity: u32,
    pub handle: DefaultBodyHandle,
}

/// Where the simulation has moved the body of an entity to.
#[derive(Clone, Copy, Debug, PartialEq, Eq, Structural)]
pub struct BodyPose {
    pub entity: u32,
    pub position: Vec3,
    /// The rotation as angles about the x, y and z axes.
    pub rotation: Vec3,
}

/// Brings the poses that the simulation worked out back into the
/// transforms.
#[derive(Clone, Copy, Debug, Default)]
pub struct SyncBodiesFromPhysicsSystem;

/// The transforms and their journal after the first `n` of `poses` were
/// written back.
///
/// A pose is written where its entity has a transform, a rigid body and a
/// body in the simulation: position and rotation are overwritten, scale and
/// model matrix stay, and the journal notes that the transform was
/// modified. A pose whose entity lacks one of the three is passed over.
pub open spec fn poses_written(
    transforms: Map<u32, Transform>,
    journal: crate::ecs::channel::ChannelView,
    rigidbodies: Set<u32>,
    bodies: Set<u32>,
    poses: Seq<BodyPose>,
    n: int,
) -> (Map<u32, Transform>, crate::ecs::channel::ChannelView)
    decreases n,
{
    if n <= 0 {
        (transforms, journal)
    } else {
        let (before, noted) = poses_written(transforms, journal, rigidbodies, bodies, poses, n - 1);
        let pose = poses[n - 1];
        if before.contains_key(pose.entity) && rigidbodies.contains(pose.entity) && bodies.contains(
            pose.entity,
        ) {
            (
                before.insert(
                    pose.entity,
                    before[pose.entity].with_pose(pose.position, pose.rotation),
                ),
                noted.write(ComponentEvent::Modified(pose.entity)),
            )
        } else {
            (before, noted)
        }
    }
}

impl SyncBodiesFromPhysicsSystem {
    /// The bodies to ask the simulation about: those of the entities that
    /// have a transform, a rigid body and a body in the simulation, in
    /// increasing order of the entities.
    pub fn targets(
        &self,
        transforms: &ComponentStore<Transform>,
        rigidbodies: &ComponentStore<RigidBody>,
        physics: &PhysicsWorld,
    ) -> (requests: Vec<PoseRequest>)
        requires
            transforms.wf(),
            rigidbodies.wf(),
        ensures
            requests@.len() == ascending(
                transforms@.dom().intersect(rigidbodies@.dom()).intersect(
                    physics.body_handles@.dom(),
                ),
            ).len(),
            forall|i: int|
                0 <= i < requests@.len() ==> (#[trigger] requests@[i]).entity == ascending(
                    transforms@.dom().intersect(rigidbodies@.dom()).intersect(
                        physics.body_handles@.dom(),
                    ),
                )[i] && physics.body_handles@.contains_key(requests@[i].entity)
                    && requests@[i].handle == physics.body_handles@[requests@[i].entity],
    {
        let with_transform = transforms.entities();
        proof {
            lemma_ascending_below(transforms@.dom(), 0x1_0000_0000);
        }
        let with_both = retain_present(&with_transform, rigidbodies);
        let ghost wanted = transforms@.dom().intersect(rigidbodies@.dom()).intersect(
            physics.body_handles@.dom(),
        );
        let mut requests: Vec<PoseRequest> = Vec::new();
        let ghost mut found: Seq<u32> = Seq::empty();
        let mut i: usize = 0;
        while i < with_both.len()
            invariant
                0 <= i <= with_both@.len(),
                strictly_increasing(with_both@),
                strictly_increasing(found),
                found.len() == requests@.len(),
                forall|k: int|
                    0 <= k < requests@.len() ==> (#[trigger] requests@[k]).entity == found[k]
                        && physics.body_handles@.contains_key(found[k]) && requests@[k].handle
                        == physics.body_handles@[found[k]],
                forall|id: u32|
                    found.contains(id) <==> (exists|j: int| 0 <= j < i && with_both@[j] == id)
                        && physics.body_handles@.contains_key(id),
                found.len() > 0 && i < with_both@.len() ==> found[found.len() - 1]
                    < with_both@[i as int],
            decreases with_both@.len() - i,
        {
            let entity = with_both[i];
            match physics.body_handle(entity) {
                Some(handle) => {
                    let ghost before = found;
                    requests.push(PoseRequest { entity, handle });
                    proof {
                        found = found.push(entity);
                        assert forall|a: int, b: int| 0 <= a < b < found.len() implies found[a]
                            < found[b] by {
                            assert(found[a] == before[a]);
                            if b == before.len() {
                                if a < before.len() - 1 {
                                    assert(before[a] < before[before.len() - 1]);
                                }
                            } else {
                                assert(found[b] == before[b]);
                            }
                        }
                        assert forall|x: u32|
                            found.contains(x) <==> (exists|j: int|
                                0 <= j < i + 1 && with_both@[j] == x)
                                && physics.body_handles@.contains_key(x) by {
                            if found.contains(x) {
                                let k = choose|k: int| 0 <= k < found.len() && found[k] == x;
                                if k < before.len() {
                                    assert(before[k] == x);
                                    assert(before.contains(x));
                                } else {
                                    assert(with_both@[i as int] == x);
                                }
                            }
                            if (exists|j: int| 0 <= j < i + 1 && with_both@[j] == x)
                                && physics.body_handles@.contains_key(x) {
                                let j = choose|j: int| 0 <= j < i + 1 && with_both@[j] == x;
                                if j < i {
                                    assert(before.contains(x));
                                    let k = choose|k: int| 0 <= k < before.len() && before[k] == x;
                                    assert(found[k] == x);
                                } else {
                                    assert(found[before.len() as int] == x);
                                }
                            }
                        }
                    }
                },
                None => {
                    proof {
                        assert forall|x: u32|
                            found.contains(x) <==> (exists|j: int|
                                0 <= j < i + 1 && with_both@[j] == x)
                                && physics.body_handles@.contains_key(x) by {
                            if (exists|j: int| 0 <= j < i + 1 && with_both@[j] == x)
                                && physics.body_handles@.contains_key(x) {
                                let j = choose|j: int| 0 <= j < i + 1 && with_both@[j] == x;
                                assert(j < i);
                            }
                        }
                    }
                },
            }
            i += 1;
        }
        proof {
            assert forall|id: u32|
                #![trigger found.contains(id)]
                #![trigger wanted.contains(id)]
                found.contains(id) <==> wanted.contains(id) && id < 0x1_0000_0000 by {
                if found.contains(id) {
                    let j = choose|j: int| 0 <= j < with_both@.len() && with_both@[j] == id;
                    assert(with_both@.contains(id));
                    assert(with_transform@.contains(id));
                }
                if wanted.contains(id) {
                    assert(with_transform@.contains(id));
                    assert(with_both@.contains(id));
                    let j = choose|j: int| 0 <= j < with_both@.len() && with_both@[j] == id;
                }
            }
            lemma_ascending_unique(found, wanted, 0x1_0000_0000);
        }
        requests
    }

    /// Writes the poses that the simulation reported back into the
    /// transforms, in the order of `poses`: see [`poses_written`]. The
    /// transform system then renews the model matrices of these entities.
    ///
    /// The journal of the transforms must have room for a note for each
    /// pose, so that no pose is lost: see [`ComponentStore::has_room`].
    pub fn run(
        &mut self,
        transforms: &mut ComponentStore<Transform>,
        rigidbodies: &ComponentStore<RigidBody>,
        physics: &PhysicsWorld,
        poses: &Vec<BodyPose>,
    )
        requires
            old(transforms).wf(),
            old(transforms).journal().has_room(poses@.len()),
        ensures
            final(transforms).wf(),
            (final(transforms)@, final(transforms).journal()) == poses_written(
                old(transforms)@,
                old(transforms).journal(),
                rigidbodies@.dom(),
                physics.body_handles@.dom(),
                poses@,
                poses@.len() as int,
            ),
    {
        let mut i: usize = 0;
        while i < poses.len()
            invariant
                0 <= i <= poses@.len(),
                transforms.wf(),
                transforms.journal().has_room((poses@.len() - i) as nat),
                (transforms@, transforms.journal()) == poses_written(
                    old(transforms)@,
                    old(transforms).journal(),
                    rigidbodies@.dom(),
                    physics.body_handles@.dom(),
                    poses@,
                    i as int,
                ),
            decreases poses@.len() - i,
        {
            let pose = poses[i];
            proof {
                transforms.lemma_wf();
                let room = (poses@.len() - i) as nat;
                transforms.journal().lemma_room_after_write(
                    ComponentEvent::Modified(pose.entity),
                    room,
                );
                transforms.journal().lemma_room_for_fewer(room, (room - 1) as nat);
            }
            if rigidbodies.contains(pose.entity) && physics.body_handle(pose.entity).is_some() {
                let moved = match transforms.get(pose.entity) {
                    Some(transform) => Some(
                        Transform {
                            position: pose.position,
                            rotation: pose.rotation,
                            scale: transform.scale,
                            model_matrix: transform.model_matrix,
                        },
                    ),
                    None => None,
                };
                match moved {
                    Some(transform) => {
                        let _ = transforms.modify(pose.entity, transform);
                    },
                    None => {},
                }
            }
            i += 1;
        }
    }
}

/// What is to be done about the collider of an entity.
#[derive(Clone, Copy, Debug, PartialEq, Eq, Structural)]
pub enum ColliderCommand {
    /// Build a collider from the collider component of the entity.
    Create(u32),
    /// Take the collider of the entity out of the simulation.
    Remove(u32),
}

/// The one thing to do to the simulation for a collider command.
#[derive(Clone, Copy, Debug, PartialEq, Eq)]
pub enum ColliderAction {
    /// Take the collider `stale` out, if there is one; build the collider
    /// of `entity` on the body `parent`, or on the ground where there is
    /// none or where the simulation no longer has that body; report its
    /// handle with [`PhysicsWorld::insert_collider`].
    Create { entity: u32, stale: Option<DefaultColliderHandle>, parent: Option<DefaultBodyHandle> },
    /// Take the collider `handle` out of the simulation, if the simulation
    /// still has it.
    Remove { entity: u32, handle: DefaultColliderHandle },
    /// Nothing: the entity has no collider.
    Skip,
}

/// The list of what is to be done about colliders, given the entities whose
/// collider was inserted and removed and the entities that have a
/// transform and a collider now: first the colliders to build, for the
/// entities whose collider was inserted and that have a transform and a
/// collider; then the colliders to take out, for the entities whose
/// collider was removed, but for those whose collider was built anew in
/// this very list. Within each part the entities come in increasing order.
pub open spec fn collider_agenda(
    inserted: Set<u32>,
    removed: Set<u32>,
    transforms: Set<u32>,
    colliders: Set<u32>,
) -> Seq<ColliderCommand> {
    let built = inserted.intersect(transforms).intersect(colliders);
    commands_for(ascending(built), |e: u32| ColliderCommand::Create(e)) + commands_for(
        ascending(removed.difference(built)),
        |e: u32| ColliderCommand::Remove(e),
    )
}

/// Tells the simulation of colliders that came and went.
pub struct SyncCollidersToPhysicsSystem {
    pub colliders_reader_id: ReaderId,
}

impl SyncCollidersToPhysicsSystem {
    /// Reads what happened to colliders since the last run and lists what
    /// is to be done about them: see [`collider_agenda`]. The reader is
    /// moved past what it read.
    pub fn run(
        &mut self,
        transforms: &ComponentStore<Transform>,
        colliders: &mut ComponentStore<Collider>,
    ) -> (agenda: Vec<ColliderCommand>)
        requires
            transforms.wf(),
            old(colliders).wf(),
            old(colliders).registered(&old(self).colliders_reader_id),
        ensures
            final(colliders).wf(),
            final(colliders)@ == old(colliders)@,
            final(colliders).journal() == old(colliders).journal().read(
                old(self).colliders_reader_id.spec_slot(),
            ),
            final(self).colliders_reader_id == old(self).colliders_reader_id,
            agenda@ == collider_agenda(
                inserted_in(
                    old(colliders).journal().pending(old(self).colliders_reader_id.spec_slot()),
                ),
                removed_in(
                    old(colliders).journal().pending(old(self).colliders_reader_id.spec_slot()),
                ),
                transforms@.dom(),
                old(colliders)@.dom(),
            ),
    {
        let events = colliders.read(&self.colliders_reader_id);
        let (inserted_col, _modified_col, removed_col) = iterate_component_events(&events);
        let ghost inserted = inserted_in(events@);
        let ghost removed = removed_in(events@);
        let ghost built_set = inserted.intersect(transforms@.dom()).intersect(colliders@.dom());

        // Inserted colliders
        let inserted_ids = sorted_members(&inserted_col);
        proof {
            lemma_ascending_below(inserted, 0x1_0000_0000);
        }
        let with_transform = retain_present(&inserted_ids, transforms);
        let built = retain_present(&with_transform, colliders);
        proof {
            lemma_ascending_unique(built@, built_set, 0x1_0000_0000);
            assert forall|i: int| 0 <= i < built@.len() implies built@[i] < MAX_ENTITIES by {
                assert(built@.contains(built@[i]));
                colliders.lemma_wf();
            }
        }

        // Removed colliders
        let removed_ids = sorted_members(&removed_col);
        proof {
            lemma_ascending_below(removed, 0x1_0000_0000);
        }
        let built_now = set_of(&built);
        let gone = without(&removed_ids, &built_now);
        proof {
            lemma_ascending_unique(gone@, removed.difference(built_set), 0x1_0000_0000);
        }

        let mut agenda: Vec<ColliderCommand> = Vec::new();
        let mut i: usize = 0;
        while i < built.len()
            invariant
                0 <= i <= built@.len(),
                agenda@ == commands_for(
                    built@.subrange(0, i as int),
                    |e: u32| ColliderCommand::Create(e),
                ),
            decreases built@.len() - i,
        {
            agenda.push(ColliderCommand::Create(built[i]));
            i += 1;
            proof {
                assert(agenda@ =~= commands_for(
                    built@.subrange(0, i as int),
                    |e: u32| ColliderCommand::Create(e),
                ));
            }
        }
        let ghost creates = agenda@;
        let mut i: usize = 0;
        while i < gone.len()
            invariant
                0 <= i <= gone@.len(),
                agenda@ == creates + commands_for(
                    gone@.subrange(0, i as int),
                    |e: u32| ColliderCommand::Remove(e),
                ),
            decreases gone@.len() - i,
        {
            agenda.push(ColliderCommand::Remove(gone[i]));
            i += 1;
            proof {
                assert(agenda@ =~= creates + commands_for(
                    gone@.subrange(0, i as int),
                    |e: u32| ColliderCommand::Remove(e),
                ));
            }
        }
        proof {
            assert(built@.subrange(0, built@.len() as int) =~= built@);
            assert(gone@.subrange(0, gone@.len() as int) =~= gone@);
            assert(agenda@ =~= collider_agenda(
                inserted,
                removed,
                transforms@.dom(),
                colliders@.dom(),
            ));
        }
        agenda
    }
}

impl PhysicsWorld {
    /// What `resolve_collider` answers to `command`, given the handles.
    pub open spec fn collider_action(
        colliders: Map<u32, DefaultColliderHandle>,
        bodies: Map<u32, DefaultBodyHandle>,
        command: ColliderCommand,
    ) -> ColliderAction {
        match command {
            ColliderCommand::Create(entity) => ColliderAction::Create {
                entity,
                stale: handle_of(colliders, entity),
                parent: handle_of(bodies, entity),
            },
            ColliderCommand::Remove(entity) => match handle_of(colliders, entity) {
                Some(handle) => ColliderAction::Remove { entity, handle },
                None => ColliderAction::Skip,
            },
        }
    }

    /// Turns `command` into the one thing to do to the simulation now.
    ///
    /// A collider that is to be built goes on the body of its entity, or on
    /// the ground where the entity has no body, and replaces the collider
    /// that the entity has, if it has one. Both building and taking out
    /// forget the handle of the entity; a collider that is to be taken out
    /// and is not there is skipped.
    pub fn resolve_collider(&mut self, command: ColliderCommand) -> (action: ColliderAction)
        ensures
            action == Self::collider_action(
                old(self).collider_handles@,
                old(self).body_handles@,
                command,
            ),
            final(self).collider_handles@ == old(self).collider_handles@.remove(
                match command {
                    ColliderCommand::Create(entity) => entity,
                    ColliderCommand::Remove(entity) => entity,
                },
            ),
            final(self).body_handles@ == old(self).body_handles@,
            action == ColliderAction::Skip ==> final(self).collider_handles@ == old(self).collider_handles@,
    {
        match command {
            ColliderCommand::Create(entity) => {
                let parent = self.body_handle(entity);
                let stale = self.remove_collider(entity);
                ColliderAction::Create { entity, stale, parent }
            },
            ColliderCommand::Remove(entity) => match self.remove_collider(entity) {
                Some(handle) => ColliderAction::Remove { entity, handle },
                None => ColliderAction::Skip,
            },
        }
    }
}

} // verus!
