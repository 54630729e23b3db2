//! The systems that run once per frame.

pub mod physics;
pub mod render;

use crate::ecs::bitset::{bitset_add, bitset_clear, bitset_members, bitset_new, MAX_ENTITIES};
use crate::ecs::channel::{lemma_one_more_event, ChannelView, ComponentEvent, ReaderId};
use crate::ecs::components::{BoxCollider, Transform};
use crate::ecs::join::{
    ascending, lemma_ascending_below, lemma_ascending_unique, retain_present, sorted_members,
};
use crate::ecs::resources::{
    key_down, Action, InputCache, InputEventQueue, WindowEvent, KEY_A, KEY_D, KEY_Q, KEY_S, KEY_W,
    KEY_Z,
};
use crate::ecs::storage::{events_in_range, ComponentStore};
use crate::ecs::systems::physics::{inserted_in, iterate_component_events, modified_in};
use crate::gl_wrapper::ModelRecipe;
use crate::math::{Mat4, Real, Vec2, ONE_BITS};
use specs::BitSet;
use vstd::prelude::*;

verus! {

broadcast use vstd::std_specs::hash::group_hash_axioms;

/// The entities of which `events` says that a component was inserted or
/// modified.
pub open spec fn changed_in(events: Seq<ComponentEvent>) -> Set<u32> {
    inserted_in(events).union(modified_in(events))
}

/// A model matrix that is to be worked out: the entity, and what its
/// matrix is composed of.
#[derive(Clone, Copy, Debug, PartialEq, Eq)]
pub struct ModelWork {
    pub entity: u32,
    pub recipe: ModelRecipe,
}

/// What the model matrix of `transform` is composed of: its position, its
/// rotation and its scale as it is.
pub open spec fn recipe_of(transform: Transform) -> ModelRecipe {
    ModelRecipe {
        position: transform.position,
        rotation: transform.rotation,
        scale: transform.scale,
        factor: Real { bits: ONE_BITS },
    }
}

/// The work for each of `entities`, from the transforms as they are.
pub open spec fn work_for(entities: Seq<u32>, transforms: Map<u32, Transform>) -> Seq<ModelWork> {
    Seq::new(
        entities.len(),
        |i: int| ModelWork { entity: entities[i], recipe: recipe_of(transforms[entities[i]]) },
    )
}

/// Keeps the model matrices in step with the transforms: finds, from the
/// journal of the transforms, the entities whose model matrix is out of
/// date.
pub struct TransformSystem {
    pub reader_id: ReaderId,
    /// The entities whose transform was inserted or modified before the
    /// last run.
    pub dirty: BitSet,
}

impl TransformSystem {
    /// A transform system that has yet to run, subscribed to the journal of
    /// `transforms` from now on.
    pub fn new(transforms: &mut ComponentStore<Transform>) -> (system: TransformSystem)
        requires
            old(transforms).wf(),
        ensures
            final(transforms).wf(),
            final(transforms)@ == old(transforms)@,
            !old(transforms).journal().live(system.reader_id.spec_slot()),
            0 <= system.reader_id.spec_slot() <= old(transforms).journal().positions.len(),
            forall|slot: int|
                0 <= slot < system.reader_id.spec_slot() ==> old(transforms).journal().live(slot),
            final(transforms).journal() == old(transforms).journal().subscribe(
                system.reader_id.spec_slot(),
            ),
            final(transforms).registered(&system.reader_id),
            bitset_members(system.dirty) == Set::<u32>::empty(),
    {
        TransformSystem { reader_id: transforms.register_reader(), dirty: bitset_new() }
    }

    /// Reads what happened to transforms since the last run and lists the
    /// entities whose model matrix has to be worked out anew: those whose
    /// transform was inserted or modified and is still there, each once, in
    /// increasing order. A removed transform needs no matrix.
    ///
    /// With each entity comes the recipe of its matrix: translation by its
    /// position, after rotation, after scaling. The matrix is to be
    /// composed in that order and handed to [`TransformSystem::derive`],
    /// which stores it without a note in the journal. So an entity that
    /// nobody touches is not listed again.
    pub fn run(&mut self, transforms: &mut ComponentStore<Transform>) -> (work: Vec<ModelWork>)
        requires
            old(transforms).wf(),
            old(transforms).registered(&old(self).reader_id),
        ensures
            final(transforms).wf(),
            final(transforms)@ == old(transforms)@,
            final(transforms).journal() == old(transforms).journal().read(
                old(self).reader_id.spec_slot(),
            ),
            final(transforms).registered(&final(self).reader_id),
            final(self).reader_id == old(self).reader_id,
            bitset_members(final(self).dirty) == changed_in(
                old(transforms).journal().pending(old(self).reader_id.spec_slot()),
            ),
            work@ == work_for(
                ascending(
                    changed_in(
                        old(transforms).journal().pending(old(self).reader_id.spec_slot()),
                    ).intersect(old(transforms)@.dom()),
                ),
                old(transforms)@,
            ),
    {
        bitset_clear(&mut self.dirty);
        let events = transforms.read(&self.reader_id);
        let mut i: usize = 0;
        while i < events.len()
            invariant
                0 <= i <= events@.len(),
                events_in_range(events@),
                bitset_members(self.dirty) == changed_in(events@.subrange(0, i as int)),
                self.reader_id == old(self).reader_id,
            decreases events@.len() - i,
        {
            let ghost seen = events@.subrange(0, i as int);
            let ghost next = events@.subrange(0, i as int + 1);
            proof {
                assert(next =~= seen.push(events@[i as int]));
                assert(events@[i as int].spec_entity() < MAX_ENTITIES);
                lemma_one_more_event(events@, i as int);
            }
            match events[i] {
                ComponentEvent::Modified(id) => {
                    bitset_add(&mut self.dirty, id);
                },
                ComponentEvent::Inserted(id) => {
                    bitset_add(&mut self.dirty, id);
                },
                ComponentEvent::Removed(_) => {},
            }
            proof {
                assert(bitset_members(self.dirty) =~= changed_in(next));
            }
            i += 1;
        }
        proof {
            assert(events@.subrange(0, events@.len() as int) =~= events@);
        }
        let dirty = sorted_members(&self.dirty);
        proof {
            lemma_ascending_below(changed_in(events@), 0x1_0000_0000);
        }
        let stale = retain_present(&dirty, transforms);
        proof {
            lemma_ascending_unique(
                stale@,
                changed_in(events@).intersect(transforms@.dom()),
                0x1_0000_0000,
            );
        }
        proof {
            assert forall|j: int| 0 <= j < stale@.len() implies transforms@.contains_key(
                #[trigger] stale@[j],
            ) by {
                assert(stale@.contains(stale@[j]));
            }
        }
        let mut work: Vec<ModelWork> = Vec::new();
        let mut k: usize = 0;
        while k < stale.len()
            invariant
                0 <= k <= stale@.len(),
                forall|j: int|
                    0 <= j < stale@.len() ==> transforms@.contains_key(#[trigger] stale@[j]),
                work@ == work_for(stale@.subrange(0, k as int), transforms@),
            decreases stale@.len() - k,
        {
            let entity = stale[k];
            match transforms.get(entity) {
                Some(transform) => {
                    work.push(
                        ModelWork {
                            entity,
                            recipe: ModelRecipe {
                                position: transform.position,
                                rotation: transform.rotation,
                                scale: transform.scale,
                                factor: Real::one(),
                            },
                        },
                    );
                },
                None => {
                    proof {
                        assert(transforms@.contains_key(stale@[k as int]));
                    }
                },
            }
            k += 1;
            proof {
                assert(work@ =~= work_for(stale@.subrange(0, k as int), transforms@));
            }
        }
        proof {
            assert(stale@.subrange(0, stale@.len() as int) =~= stale@);
        }
        work
    }

    /// Stores `model_matrix` as the model matrix of `entity`. Position,
    /// rotation and scale stay as they are and the journal is not told: the
    /// matrix follows from the three, and the next run must not take it for
    /// a change. Nothing happens where the entity has no transform.
    pub fn derive(
        &self,
        transforms: &mut ComponentStore<Transform>,
        entity: u32,
        model_matrix: Mat4,
    )
        requires
            old(transforms).wf(),
        ensures
            final(transforms).wf(),
            final(transforms).journal() == old(transforms).journal(),
            final(transforms)@ == (if old(transforms)@.contains_key(entity) {
                old(transforms)@.insert(
                    entity,
                    old(transforms)@[entity].with_model_matrix(model_matrix),
                )
            } else {
                old(transforms)@
            }),
    {
        let renewed = match transforms.get(entity) {
            Some(transform) => Some(
                Transform {
                    position: transform.position,
                    rotation: transform.rotation,
                    scale: transform.scale,
                    model_matrix,
                },
            ),
            None => None,
        };
        match renewed {
            Some(transform) => {
                transforms.replace_unflagged(entity, transform);
            },
            None => {},
        }
    }
}

/// An entity whose transform changed, however often, is listed once.
pub proof fn law_changed_entity_listed_once(events: Seq<ComponentEvent>, transforms: Set<u32>)
    ensures
        ascending(changed_in(events).intersect(transforms)).no_duplicates(),
        forall|entity: u32|
            ascending(changed_in(events).intersect(transforms)).contains(entity) <==> (
            events.contains(ComponentEvent::Inserted(entity)) || events.contains(
                ComponentEvent::Modified(entity),
            )) && transforms.contains(entity),
{
    crate::ecs::join::lemma_ascending_no_duplicates(changed_in(events).intersect(transforms));
    assert forall|entity: u32|
        ascending(changed_in(events).intersect(transforms)).contains(entity) <==> (events.contains(
            ComponentEvent::Inserted(entity),
        ) || events.contains(ComponentEvent::Modified(entity))) && transforms.contains(entity) by {
        assert(changed_in(events).intersect(transforms).contains(entity) <==> (events.contains(
            ComponentEvent::Inserted(entity),
        ) || events.contains(ComponentEvent::Modified(entity))) && transforms.contains(entity));
    }
}

/// After a run, a frame in which nobody touches a transform has no work:
/// the reader that has just read has nothing pending, and nothing gives no
/// entity to list.
pub proof fn law_untouched_frame_has_no_work(journal: ChannelView, slot: int, transforms: Set<u32>)
    requires
        journal.wf(),
        journal.live(slot),
    ensures
        journal.read(slot).pending(slot) == Seq::<ComponentEvent>::empty(),
        ascending(changed_in(journal.read(slot).pending(slot)).intersect(transforms)) == Seq::<
            u32,
        >::empty(),
{
    let pending = journal.read(slot).pending(slot);
    assert(pending =~= Seq::<ComponentEvent>::empty());
    let none = changed_in(pending).intersect(transforms);
    crate::ecs::join::lemma_ascending_no_duplicates(none);
    let listed = ascending(none);
    if listed.len() > 0 {
        assert(listed.contains(listed[0]));
        assert(none.contains(listed[0]));
    }
    assert(listed =~= Seq::<u32>::empty());
}

/// A way for the camera to move.
#[derive(Clone, Copy, Debug, PartialEq, Eq, Structural)]
pub enum Movement {
    Forward,
    Backward,
    Left,
    Right,
    Up,
    Down,
}

/// What the input cache remembers, as contracts see it.
pub struct InputState {
    pub last_cursor_pos: Vec2,
    pub previous_cursor_pos: Vec2,
    pub key_states: Map<i32, Action>,
}

/// What the cache remembers after the first `n` of `events`: the latest
/// action on each key, and the last two places of the pointer.
pub open spec fn input_after(state: InputState, events: Seq<WindowEvent>, n: int) -> InputState
    decreases n,
{
    if n <= 0 {
        state
    } else {
        let before = input_after(state, events, n - 1);
        match events[n - 1] {
            WindowEvent::CursorPos(x, y) => InputState {
                last_cursor_pos: Vec2 { x, y },
                previous_cursor_pos: before.last_cursor_pos,
                key_states: before.key_states,
            },
            WindowEvent::Key(key, action) => InputState {
                key_states: before.key_states.insert(key, action),
                ..before
            },
            WindowEvent::Other => before,
        }
    }
}

/// The movement of `key`, if `key` is down, else nothing.
pub open spec fn movement_of(keys: Map<i32, Action>, key: i32, movement: Movement) -> Seq<
    Movement,
> {
    if key_down(keys, key) {
        seq![movement]
    } else {
        Seq::empty()
    }
}

/// The movements that the keys held down ask for, in the order W, S, A, D,
/// Q, Z: forward, backward, left, right, up, down.
pub open spec fn movements(keys: Map<i32, Action>) -> Seq<Movement> {
    movement_of(keys, KEY_W, Movement::Forward) + movement_of(keys, KEY_S, Movement::Backward)
        + movement_of(keys, KEY_A, Movement::Left) + movement_of(keys, KEY_D, Movement::Right)
        + movement_of(keys, KEY_Q, Movement::Up) + movement_of(keys, KEY_Z, Movement::Down)
}

/// Reads the events of the window and says how the camera is to move.
#[derive(Clone, Copy, Debug, Default)]
pub struct InputSystem;

impl InputCache {
    /// What the cache remembers.
    pub open spec fn state(&self) -> InputState {
        InputState {
            last_cursor_pos: self.last_cursor_pos,
            previous_cursor_pos: self.previous_cursor_pos,
            key_states: self.key_states@,
        }
    }
}

impl InputSystem {
    /// Takes every event out of the queue, in the order of arrival, and
    /// notes it in the cache; then lists the movements that the keys held
    /// down ask for. Each movement is a step of the active camera.
    pub fn run(&mut self, input_event_queue: &mut InputEventQueue, input_cache: &mut InputCache) -> (steps:
        Vec<Movement>)
        ensures
            final(input_event_queue).queue@ == Seq::<WindowEvent>::empty(),
            final(input_cache).state() == input_after(
                old(input_cache).state(),
                old(input_event_queue).queue@,
                old(input_event_queue).queue@.len() as int,
            ),
            steps@ == movements(final(input_cache).key_states@),
    {
        let ghost events = input_event_queue.queue@;
        let ghost mut done: int = 0;
        loop
            invariant
                0 <= done <= events.len(),
                input_event_queue.queue@ == events.subrange(done, events.len() as int),
                input_cache.state() == input_after(old(input_cache).state(), events, done),
            ensures
                done == events.len(),
                input_event_queue.queue@ == Seq::<WindowEvent>::empty(),
                input_cache.state() == input_after(old(input_cache).state(), events, done),
            decreases events.len() - done,
        {
            let event = input_event_queue.queue.pop_front();
            match event {
                None => {
                    proof {
                        assert(input_event_queue.queue@ =~= Seq::<WindowEvent>::empty());
                    }
                    break ;
                },
                Some(event) => {
                    proof {
                        assert(event == events[done]);
                        assert(input_event_queue.queue@ =~= events.subrange(
                            done + 1,
                            events.len() as int,
                        ));
                    }
                    match event {
                        WindowEvent::CursorPos(x, y) => {
                            input_cache.previous_cursor_pos = input_cache.last_cursor_pos;
                            input_cache.last_cursor_pos = Vec2 { x, y };
                        },
                        WindowEvent::Key(key, action) => {
                            input_cache.key_states.insert(key, action);
                        },
                        WindowEvent::Other => {},
                    }
                    proof {
                        done = done + 1;
                    }
                },
            }
        }
        let mut steps: Vec<Movement> = Vec::new();
        if input_cache.is_key_pressed(KEY_W) {
            steps.push(Movement::Forward);
        }
        if input_cache.is_key_pressed(KEY_S) {
            steps.push(Movement::Backward);
        }
        if input_cache.is_key_pressed(KEY_A) {
            steps.push(Movement::Left);
        }
        if input_cache.is_key_pressed(KEY_D) {
            steps.push(Movement::Right);
        }
        if input_cache.is_key_pressed(KEY_Q) {
            steps.push(Movement::Up);
        }
        if input_cache.is_key_pressed(KEY_Z) {
            steps.push(Movement::Down);
        }
        proof {
            assert(steps@ =~= movements(input_cache.key_states@));
        }
        steps
    }
}

/// Finds the box colliders that the simulation does not know yet.
pub struct BoxColliderSystem {
    pub reader_id: ReaderId,
    /// The entities whose box collider was modified since the system was
    /// made.
    pub dirty: BitSet,
}

impl BoxColliderSystem {
    /// Reads what happened to box colliders since the last run. Lists the
    /// entities for which a box is to be built in the simulation, on the
    /// ground, at the place of the transform: those whose box collider was
    /// inserted and that have a transform and a box collider, in increasing
    /// order. The entities whose box collider was modified are added to
    /// `dirty`.
    pub fn run(
        &mut self,
        transforms: &ComponentStore<Transform>,
        box_colliders: &mut ComponentStore<BoxCollider>,
    ) -> (fresh: Vec<u32>)
        requires
            transforms.wf(),
            old(box_colliders).wf(),
            old(box_colliders).registered(&old(self).reader_id),
        ensures
            final(box_colliders).wf(),
            final(box_colliders)@ == old(box_colliders)@,
            final(box_colliders).journal() == old(box_colliders).journal().read(
                old(self).reader_id.spec_slot(),
            ),
            final(self).reader_id == old(self).reader_id,
            bitset_members(final(self).dirty) == bitset_members(old(self).dirty).union(
                modified_in(old(box_colliders).journal().pending(old(self).reader_id.spec_slot())),
            ),
            fresh@ == ascending(
                inserted_in(
                    old(box_colliders).journal().pending(old(self).reader_id.spec_slot()),
                ).intersect(transforms@.dom()).intersect(old(box_colliders)@.dom()),
            ),
    {
        let events = box_colliders.read(&self.reader_id);
        let (inserted, modified, _removed) = iterate_component_events(&events);
        let changed = sorted_members(&modified);
        proof {
            lemma_ascending_below(modified_in(events@), 0x1_0000_0000);
        }
        let mut i: usize = 0;
        while i < changed.len()
            invariant
                0 <= i <= changed@.len(),
                events_in_range(events@),
                self.reader_id == old(self).reader_id,
                forall|id: u32|
                    #![trigger changed@.contains(id)]
                    changed@.contains(id) <==> modified_in(events@).contains(id),
                forall|id: u32|
                    bitset_members(self.dirty).contains(id) <==> bitset_members(
                        old(self).dirty,
                    ).contains(id) || exists|j: int| 0 <= j < i && changed@[j] == id,
            decreases changed@.len() - i,
        {
            proof {
                let id = changed@[i as int];
                assert(changed@.contains(id));
                assert(events@.contains(ComponentEvent::Modified(id)));
                let k = choose|k: int|
                    0 <= k < events@.len() && events@[k] == ComponentEvent::Modified(id);
                assert(events@[k].spec_entity() < MAX_ENTITIES);
            }
            bitset_add(&mut self.dirty, changed[i]);
            i += 1;
        }
        proof {
            assert(bitset_members(self.dirty) =~= bitset_members(old(self).dirty).union(
                modified_in(events@),
            )) by {
                assert forall|id: u32|
                    bitset_members(self.dirty).contains(id) <==> bitset_members(
                        old(self).dirty,
                    ).union(modified_in(events@)).contains(id) by {
                    if modified_in(events@).contains(id) {
                        assert(changed@.contains(id));
                        let j = choose|j: int| 0 <= j < changed@.len() && changed@[j] == id;
                    }
                    if exists|j: int| 0 <= j < changed@.len() && changed@[j] == id {
                        assert(changed@.contains(id));
                    }
                }
            }
        }
        let inserted_ids = sorted_members(&inserted);
        proof {
            lemma_ascending_below(inserted_in(events@), 0x1_0000_0000);
        }
        let with_transform = retain_present(&inserted_ids, transforms);
        let fresh = retain_present(&with_transform, box_colliders);
        proof {
            lemma_ascending_unique(
                fresh@,
                inserted_in(events@).intersect(transforms@.dom()).intersect(box_colliders@.dom()),
                0x1_0000_0000,
            );
        }
        fresh
    }
}

/// Counts frames and reports, once a second has passed, how many there
/// were. Time is counted in nanoseconds from any fixed moment.
#[derive(Clone, Copy, Debug, PartialEq, Eq, Default)]
pub struct PrintFramerate {
    pub prev: u64,
    pub frames: u32,
}

/// A number of frames and the time that they took, in nanoseconds.
#[derive(Clone, Copy, Debug, PartialEq, Eq, Structural)]
pub struct FrameCount {
    pub frames: u32,
    pub nanoseconds: u64,
}

impl PrintFramerate {
    /// Counts one frame at the time `now`. Where a second or more has
    /// passed since the last report, reports the frames counted since and
    /// the time that they took, and starts over. The count stops at the
    /// greatest number that it can hold.
    pub fn run(&mut self, now: u64) -> (report: Option<FrameCount>)
        ensures
            ({
                let counted = if old(self).frames < u32::MAX {
                    (old(self).frames + 1) as u32
                } else {
                    u32::MAX
                };
                if now >= old(self).prev && now - old(self).prev >= 1_000_000_000 {
                    &&& report == Some(
                        FrameCount {
                            frames: counted,
                            nanoseconds: (now - old(self).prev) as u64,
                        },
                    )
                    &&& final(self).prev == now
                    &&& final(self).frames == 0
                } else {
                    &&& report.is_none()
                    &&& final(self).prev == old(self).prev
                    &&& final(self).frames == counted
                }
            }),
    {
        if self.frames < u32::MAX {
            self.frames = self.frames + 1;
        }
        if now >= self.prev && now - self.prev >= 1_000_000_000 {
            let report = FrameCount { frames: self.frames, nanoseconds: now - self.prev };
            self.prev = now;
            self.frames = 0;
            Some(report)
        } else {
            None
        }
    }
}

} // verus!
