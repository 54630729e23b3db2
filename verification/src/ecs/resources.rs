//! The resources that systems share: the active camera, the input that
//! arrived, and the handles of the physics simulation.

use crate::math::{Real, Vec2, ZERO_BITS};
use nphysics3d::object::{DefaultBodyHandle, DefaultColliderHandle};
use std::collections::{HashMap, VecDeque};
use vstd::prelude::*;

verus! {

broadcast use vstd::std_specs::hash::group_hash_axioms;

/// The entity whose camera the renderer shows. Nothing is drawn while there
/// is none.
#[derive(Clone, Copy, Debug, PartialEq, Eq)]
pub struct ActiveCamera {
    pub entity: Option<u32>,
}

impl Default for ActiveCamera {
    fn default() -> (camera: ActiveCamera)
        ensures
            camera.entity.is_none(),
    {
        ActiveCamera { entity: None }
    }
}

/// What happened to a key.
#[derive(Clone, Copy, Debug, PartialEq, Eq, Structural)]
pub enum Action {
    Release,
    Press,
    Repeat,
}

/// Code of the key W.
pub const KEY_W: i32 = 87;

/// Code of the key S.
pub const KEY_S: i32 = 83;

/// Code of the key A.
pub const KEY_A: i32 = 65;

/// Code of the key D.
pub const KEY_D: i32 = 68;

/// Code of the key Q.
pub const KEY_Q: i32 = 81;

/// Code of the key Z.
pub const KEY_Z: i32 = 90;

/// An event of the window, as far as the engine reads it.
#[derive(Clone, Copy, Debug, PartialEq, Eq, Structural)]
pub enum WindowEvent {
    /// The pointer moved to the given place.
    CursorPos(Real, Real),
    /// The key with the given code was pressed, held or released.
    Key(i32, Action),
    /// Anything else.
    Other,
}

/// The events of the window that no system has read yet, in the order in
/// which they arrived.
#[derive(Debug)]
pub struct InputEventQueue {
    pub queue: VecDeque<WindowEvent>,
}

impl Default for InputEventQueue {
    fn default() -> (events: InputEventQueue)
        ensures
            events.queue@ == Seq::<WindowEvent>::empty(),
    {
        InputEventQueue { queue: VecDeque::new() }
    }
}

/// What the input system remembers between frames: where the pointer was
/// at the last two pointer events, and the latest action on each key.
#[derive(Debug)]
pub struct InputCache {
    pub last_cursor_pos: Vec2,
    /// Where the pointer was before it moved to `last_cursor_pos`. The
    /// relative motion of the pointer is the difference of the two.
    pub previous_cursor_pos: Vec2,
    pub key_states: HashMap<i32, Action>,
}

impl Default for InputCache {
    fn default() -> (cache: InputCache)
        ensures
            cache.last_cursor_pos == (Vec2 {
                x: Real { bits: ZERO_BITS },
                y: Real { bits: ZERO_BITS },
            }),
            cache.previous_cursor_pos == cache.last_cursor_pos,
            cache.key_states@ == Map::<i32, Action>::empty(),
    {
        let origin = Vec2 { x: Real::zero(), y: Real::zero() };
        InputCache {
            last_cursor_pos: origin,
            previous_cursor_pos: origin,
            key_states: HashMap::new(),
        }
    }
}

/// Whether the latest action on `key` among `states` holds it down.
pub open spec fn key_down(states: Map<i32, Action>, key: i32) -> bool {
    states.contains_key(key) && (states[key] == Action::Press || states[key] == Action::Repeat)
}

impl InputCache {
    /// Whether `key` is held down: whether the latest action on it was a
    /// press or a repeat.
    pub fn is_key_pressed(&self, key: i32) -> (pressed: bool)
        ensures
            pressed == key_down(self.key_states@, key),
    {
        match self.key_states.get(&key) {
            None => false,
            Some(action) => match action {
                Action::Press => true,
                Action::Repeat => true,
                Action::Release => false,
            },
        }
    }
}

/// The handle by which `nphysics3d` knows a body or a collider in its
/// default sets (`DefaultBodyHandle` and `DefaultColliderHandle` are one
/// type). The engine keeps handles and hands them on; it never looks inside.
#[verifier::external_type_specification]
#[verifier::external_body]
pub struct ExHandle(DefaultBodyHandle);

/// The handles by which the physics simulation knows the bodies and the
/// colliders of entities. This is the only place that holds them.
///
/// An entity has at most one body and at most one collider.
pub struct PhysicsWorld {
    pub body_handles: HashMap<u32, DefaultBodyHandle>,
    pub collider_handles: HashMap<u32, DefaultColliderHandle>,
}

impl Default for PhysicsWorld {
    fn default() -> (physics: PhysicsWorld)
        ensures
            physics.body_handles@ == Map::<u32, DefaultBodyHandle>::empty(),
            physics.collider_handles@ == Map::<u32, DefaultColliderHandle>::empty(),
    {
        PhysicsWorld { body_handles: HashMap::new(), collider_handles: HashMap::new() }
    }
}

impl PhysicsWorld {
    /// The handle of the body of `entity`, if it has one.
    pub fn body_handle(&self, entity: u32) -> (handle: Option<DefaultBodyHandle>)
        ensures
            handle == (if self.body_handles@.contains_key(entity) {
                Some(self.body_handles@[entity])
            } else {
                None
            }),
    {
        match self.body_handles.get(&entity) {
            Some(handle) => Some(*handle),
            None => None,
        }
    }

    /// The handle of the collider of `entity`, if it has one.
    pub fn collider_handle(&self, entity: u32) -> (handle: Option<DefaultColliderHandle>)
        ensures
            handle == (if self.collider_handles@.contains_key(entity) {
                Some(self.collider_handles@[entity])
            } else {
                None
            }),
    {
        match self.collider_handles.get(&entity) {
            Some(handle) => Some(*handle),
            None => None,
        }
    }

    /// Notes `handle` as the body of `entity`, which has none so far.
    pub fn insert_body(&mut self, entity: u32, handle: DefaultBodyHandle)
        requires
            !old(self).body_handles@.contains_key(entity),
        ensures
            final(self).body_handles@ == old(self).body_handles@.insert(entity, handle),
            final(self).collider_handles@ == old(self).collider_handles@,
    {
        self.body_handles.insert(entity, handle);
    }

    /// Notes `handle` as the collider of `entity`, which has none so far.
    pub fn insert_collider(&mut self, entity: u32, handle: DefaultColliderHandle)
        requires
            !old(self).collider_handles@.contains_key(entity),
        ensures
            final(self).collider_handles@ == old(self).collider_handles@.insert(entity, handle),
            final(self).body_handles@ == old(self).body_handles@,
    {
        self.collider_handles.insert(entity, handle);
    }

    /// Forgets the body of `entity` and hands its handle out. Where the
    /// entity has no body, nothing changes.
    pub fn remove_body(&mut self, entity: u32) -> (handle: Option<DefaultBodyHandle>)
        ensures
            handle == (if old(self).body_handles@.contains_key(entity) {
                Some(old(self).body_handles@[entity])
            } else {
                None
            }),
            final(self).body_handles@ == old(self).body_handles@.remove(entity),
            !old(self).body_handles@.contains_key(entity) ==> final(self).body_handles@ == old(self).body_handles@,
            final(self).collider_handles@ == old(self).collider_handles@,
    {
        let handle = self.body_handles.remove(&entity);
        proof {
            if !old(self).body_handles@.contains_key(entity) {
                assert(self.body_handles@ =~= old(self).body_handles@);
            }
        }
        handle
    }

    /// Forgets the collider of `entity` and hands its handle out. Where the
    /// entity has no collider, nothing changes.
    pub fn remove_collider(&mut self, entity: u32) -> (handle: Option<DefaultColliderHandle>)
        ensures
            handle == (if old(self).collider_handles@.contains_key(entity) {
                Some(old(self).collider_handles@[entity])
            } else {
                None
            }),
            final(self).collider_handles@ == old(self).collider_handles@.remove(entity),
            !old(self).collider_handles@.contains_key(entity) ==> final(self).collider_handles@
                == old(self).collider_handles@,
            final(self).body_handles@ == old(self).body_handles@,
    {
        let handle = self.collider_handles.remove(&entity);
        proof {
            if !old(self).collider_handles@.contains_key(entity) {
                assert(self.collider_handles@ =~= old(self).collider_handles@);
            }
        }
        handle
    }
}

} // verus!
