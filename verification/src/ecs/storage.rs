//! Component stores: one table per component type, keyed by entity, with a
//! journal of what happened to it.

use crate::ecs::bitset::MAX_ENTITIES;
use crate::ecs::channel::{ChannelError, ChannelView, ComponentEvent, EventChannel, ReaderId};
use crate::ecs::join::{ascending, ascending_below, lemma_ascending_below, lemma_ascending_unique};
use vstd::prelude::*;

verus! {

/// Why a store refused an operation.
#[derive(Clone, Copy, Debug, PartialEq, Eq, Structural)]
pub enum StoreError {
    /// The entity index is not below [`MAX_ENTITIES`].
    InvalidEntity,
    /// The journal cannot take the event: a reader is too far behind.
    JournalFull,
}

/// Every event speaks of an entity index below [`MAX_ENTITIES`].
pub open spec fn events_in_range(events: Seq<ComponentEvent>) -> bool {
    forall|i: int| 0 <= i < events.len() ==> (#[trigger] events[i]).spec_entity() < MAX_ENTITIES
}

/// The components and the journal of a store after the components of the
/// first `n` of `entities` were taken out, one after the other. Each
/// component leaves with a note in the journal.
pub open spec fn purged<T>(
    components: Map<u32, T>,
    journal: ChannelView,
    entities: Seq<u32>,
    n: int,
) -> (Map<u32, T>, ChannelView)
    decreases n,
{
    if n <= 0 {
        (components, journal)
    } else {
        let (before, noted) = purged(components, journal, entities, n - 1);
        let entity = entities[n - 1];
        if before.contains_key(entity) {
            (before.remove(entity), noted.write(ComponentEvent::Removed(entity)))
        } else {
            (before, noted)
        }
    }
}

/// Nothing is left of the entities that were taken out: none of the first
/// `n` of `entities` has a component afterwards, and every other component
/// is there as before.
pub proof fn law_purged_entities_have_no_components<T>(
    components: Map<u32, T>,
    journal: ChannelView,
    entities: Seq<u32>,
    n: int,
)
    requires
        0 <= n <= entities.len(),
    ensures
        forall|i: int|
            0 <= i < n ==> !purged(components, journal, entities, n).0.contains_key(
                #[trigger] entities[i],
            ),
        forall|e: u32|
            purged(components, journal, entities, n).0.contains_key(e) <==> components.contains_key(
                e,
            ) && !entities.take(n).contains(e),
        forall|e: u32|
            purged(components, journal, entities, n).0.contains_key(e) ==> purged(
                components,
                journal,
                entities,
                n,
            ).0[e] == components[e],
    decreases n,
{
    if n > 0 {
        law_purged_entities_have_no_components(components, journal, entities, n - 1);
        let before = purged(components, journal, entities, n - 1).0;
        let after = purged(components, journal, entities, n).0;
        let shorter = entities.take(n - 1);
        let longer = entities.take(n);
        assert(longer =~= shorter.push(entities[n - 1]));
        assert forall|e: u32| after.contains_key(e) <==> components.contains_key(e)
            && !longer.contains(e) by {
            if shorter.contains(e) {
                let k = choose|k: int| 0 <= k < shorter.len() && shorter[k] == e;
                assert(longer[k] == e);
            }
            if e == entities[n - 1] {
                assert(longer[n - 1] == e);
            }
            if longer.contains(e) {
                let k = choose|k: int| 0 <= k < longer.len() && longer[k] == e;
                if k < n - 1 {
                    assert(shorter[k] == e);
                }
            }
        }
    }
}

/// The components of one type, by entity, and the journal of their changes.
pub struct ComponentStore<T> {
    /// `slots[e]` holds the component of entity `e`, if it has one.
    slots: Vec<Option<T>>,
    channel: EventChannel,
}

impl<T> ComponentStore<T> {
    /// The components, by entity.
    pub closed spec fn view(&self) -> Map<u32, T> {
        Map::new(
            |e: u32| e < self.slots@.len() && self.slots@[e as int] is Some,
            |e: u32| self.slots@[e as int]->0,
        )
    }

    /// The journal, as contracts see it.
    pub closed spec fn journal(&self) -> ChannelView {
        self.channel@
    }

    /// The invariant of the store.
    pub closed spec fn wf(&self) -> bool {
        &&& self.channel.wf()
        &&& self.slots@.len() <= MAX_ENTITIES
        &&& events_in_range(self.channel@.written)
    }

    /// Whether `reader` is a subscription to the journal of this store.
    pub open spec fn registered(&self, reader: &ReaderId) -> bool {
        self.journal().live(reader.spec_slot())
    }

    /// What the invariant means to callers: only entities below
    /// [`MAX_ENTITIES`] have components or events.
    pub proof fn lemma_wf(&self)
        requires
            self.wf(),
        ensures
            self.journal().wf(),
            events_in_range(self.journal().written),
            forall|e: u32| self@.contains_key(e) ==> e < MAX_ENTITIES,
    {
        self.channel.lemma_view_wf();
    }

    /// An empty store whose journal lets a reader fall `retention` events
    /// behind.
    pub fn new(retention: usize) -> (store: ComponentStore<T>)
        ensures
            store.wf(),
            store@ == Map::<u32, T>::empty(),
            store.journal().written == Seq::<ComponentEvent>::empty(),
            store.journal().positions == Seq::<Option<nat>>::empty(),
            store.journal().limit == retention,
    {
        let store = ComponentStore { slots: Vec::new(), channel: EventChannel::with_capacity(retention) };
        proof {
            assert(store@ =~= Map::<u32, T>::empty());
        }
        store
    }

    /// Whether `entity` has a component.
    pub fn contains(&self, entity: u32) -> (present: bool)
        ensures
            present == self@.contains_key(entity),
    {
        (entity as usize) < self.slots.len() && self.slots[entity as usize].is_some()
    }

    /// The component of `entity`, if it has one.
    pub fn get(&self, entity: u32) -> (component: Option<&T>)
        ensures
            match component {
                Some(c) => self@.contains_key(entity) && *c == self@[entity],
                None => !self@.contains_key(entity),
            },
    {
        if (entity as usize) < self.slots.len() {
            self.slots[entity as usize].as_ref()
        } else {
            None
        }
    }

    /// Puts `value` in the slot of `entity` and hands back what was there.
    fn put(&mut self, entity: u32, value: Option<T>) -> (previous: Option<T>)
        requires
            entity < old(self).slots@.len(),
        ensures
            final(self).slots@ == old(self).slots@.update(entity as int, value),
            final(self).channel == old(self).channel,
            previous == old(self).slots@[entity as int],
    {
        self.slots.push(value);
        let previous = self.slots.swap_remove(entity as usize);
        proof {
            assert(self.slots@ =~= old(self).slots@.update(entity as int, value));
        }
        previous
    }

    /// Gives `entity` the component `value` and notes `Inserted(entity)` in
    /// the journal. Returns the component that `value` replaced, if any.
    ///
    /// Fails, and changes nothing, where the entity index is out of range or
    /// the journal cannot take the event.
    pub fn insert(&mut self, entity: u32, value: T) -> (result: Result<Option<T>, StoreError>)
        requires
            old(self).wf(),
        ensures
            final(self).wf(),
            entity >= MAX_ENTITIES ==> result == Err::<Option<T>, StoreError>(
                StoreError::InvalidEntity,
            ),
            entity < MAX_ENTITIES && old(self).journal().starved() ==> result == Err::<
                Option<T>,
                StoreError,
            >(StoreError::JournalFull),
            result is Err ==> final(self)@ == old(self)@ && final(self).journal() == old(self).journal(),
            entity < MAX_ENTITIES && !old(self).journal().starved() ==> {
                &&& result is Ok
                &&& result->Ok_0 == (if old(self)@.contains_key(entity) {
                    Some(old(self)@[entity])
                } else {
                    None
                })
                &&& final(self)@ == old(self)@.insert(entity, value)
                &&& final(self).journal() == old(self).journal().write(
                    ComponentEvent::Inserted(entity),
                )
            },
    {
        if entity >= MAX_ENTITIES {
            return Err(StoreError::InvalidEntity);
        }
        match self.channel.single_write(ComponentEvent::Inserted(entity)) {
            Err(ChannelError::Full) => {
                return Err(StoreError::JournalFull);
            },
            Ok(()) => {},
        }
        let ghost channel = self.channel;
        while self.slots.len() <= entity as usize
            invariant
                self.slots@.len() <= MAX_ENTITIES,
                entity < MAX_ENTITIES,
                self.channel == channel,
                self@ == old(self)@,
                old(self).slots@.len() <= self.slots@.len(),
            decreases entity + 1 - self.slots@.len(),
        {
            let ghost before = self@;
            self.slots.push(None);
            proof {
                assert(self@ =~= before);
            }
        }
        let previous = self.put(entity, Some(value));
        proof {
            assert(self@ =~= old(self)@.insert(entity, value));
        }
        Ok(previous)
    }

    /// Replaces the component of `entity` by `value`, notes
    /// `Modified(entity)` in the journal and returns the old component. This
    /// is how gameplay code changes a component.
    ///
    /// Where the entity has no component, nothing changes and `Ok(None)`
    /// comes back. Fails, and changes nothing, where the journal cannot take
    /// the event.
    pub fn modify(&mut self, entity: u32, value: T) -> (result: Result<Option<T>, StoreError>)
        requires
            old(self).wf(),
        ensures
            final(self).wf(),
            !old(self)@.contains_key(entity) ==> result == Ok::<Option<T>, StoreError>(None),
            old(self)@.contains_key(entity) && old(self).journal().starved() ==> result == Err::<
                Option<T>,
                StoreError,
            >(StoreError::JournalFull),
            old(self)@.contains_key(entity) && !old(self).journal().starved() ==> {
                &&& result == Ok::<Option<T>, StoreError>(Some(old(self)@[entity]))
                &&& final(self)@ == old(self)@.insert(entity, value)
                &&& final(self).journal() == old(self).journal().write(
                    ComponentEvent::Modified(entity),
                )
            },
            !(result matches Ok(Some(_))) ==> final(self)@ == old(self)@ && final(self).journal()
                == old(self).journal(),
    {
        if !self.contains(entity) {
            return Ok(None);
        }
        match self.channel.single_write(ComponentEvent::Modified(entity)) {
            Err(ChannelError::Full) => {
                return Err(StoreError::JournalFull);
            },
            Ok(()) => {},
        }
        let previous = self.put(entity, Some(value));
        proof {
            assert(self@ =~= old(self)@.insert(entity, value));
        }
        Ok(previous)
    }

    /// Replaces the component of `entity` by `value` without a note in the
    /// journal, and returns the old component. This is the write path for
    /// values that a system derives from the component itself: its readers
    /// must not be told of a change that they caused.
    ///
    /// Where the entity has no component, nothing changes.
    pub fn replace_unflagged(&mut self, entity: u32, value: T) -> (previous: Option<T>)
        requires
            old(self).wf(),
        ensures
            final(self).wf(),
            final(self).journal() == old(self).journal(),
            old(self)@.contains_key(entity) ==> previous == Some(old(self)@[entity]) && final(self)@ == old(self)@.insert(entity, value),
            !old(self)@.contains_key(entity) ==> previous.is_none() && final(self)@ == old(self)@,
    {
        if !self.contains(entity) {
            return None;
        }
        let previous = self.put(entity, Some(value));
        proof {
            assert(self@ =~= old(self)@.insert(entity, value));
        }
        previous
    }

    /// Takes the component of `entity` out of the store and notes
    /// `Removed(entity)` in the journal.
    ///
    /// Where the entity has no component, nothing changes and `Ok(None)`
    /// comes back. Fails, and changes nothing, where the journal cannot take
    /// the event.
    pub fn remove(&mut self, entity: u32) -> (result: Result<Option<T>, StoreError>)
        requires
            old(self).wf(),
        ensures
            final(self).wf(),
            !old(self)@.contains_key(entity) ==> result == Ok::<Option<T>, StoreError>(None),
            old(self)@.contains_key(entity) && old(self).journal().starved() ==> result == Err::<
                Option<T>,
                StoreError,
            >(StoreError::JournalFull),
            old(self)@.contains_key(entity) && !old(self).journal().starved() ==> {
                &&& result == Ok::<Option<T>, StoreError>(Some(old(self)@[entity]))
                &&& final(self)@ == old(self)@.remove(entity)
                &&& final(self).journal() == old(self).journal().write(
                    ComponentEvent::Removed(entity),
                )
            },
            !(result matches Ok(Some(_))) ==> final(self)@ == old(self)@ && final(self).journal()
                == old(self).journal(),
    {
        if !self.contains(entity) {
            return Ok(None);
        }
        match self.channel.single_write(ComponentEvent::Removed(entity)) {
            Err(ChannelError::Full) => {
                return Err(StoreError::JournalFull);
            },
            Ok(()) => {},
        }
        let previous = self.put(entity, None);
        proof {
            assert(self@ =~= old(self)@.remove(entity));
        }
        Ok(previous)
    }

    /// Takes the components of `entities` out of the store, one after the
    /// other, as `remove` does. The journal must have room for a note for
    /// each of them: no component stays behind unnoticed.
    pub fn purge(&mut self, entities: &Vec<u32>)
        requires
            old(self).wf(),
            old(self).journal().has_room(entities@.len()),
        ensures
            final(self).wf(),
            forall|i: int| 0 <= i < entities@.len() ==> !final(self)@.contains_key(#[trigger] entities@[i]),
            forall|e: u32|
                final(self)@.contains_key(e) <==> old(self)@.contains_key(e) && !entities@.contains(e),
            (final(self)@, final(self).journal()) == purged(
                old(self)@,
                old(self).journal(),
                entities@,
                entities@.len() as int,
            ),
    {
        let mut i: usize = 0;
        while i < entities.len()
            invariant
                0 <= i <= entities@.len(),
                self.wf(),
                self.journal().has_room((entities@.len() - i) as nat),
                (self@, self.journal()) == purged(
                    old(self)@,
                    old(self).journal(),
                    entities@,
                    i as int,
                ),
            decreases entities@.len() - i,
        {
            proof {
                self.lemma_wf();
                let room = (entities@.len() - i) as nat;
                self.journal().lemma_room_after_write(
                    ComponentEvent::Removed(entities@[i as int]),
                    room,
                );
                self.journal().lemma_room_for_fewer(room, (room - 1) as nat);
            }
            let taken = self.remove(entities[i]);
            i += 1;
        }
        proof {
            law_purged_entities_have_no_components(
                old(self)@,
                old(self).journal(),
                entities@,
                entities@.len() as int,
            );
        }
    }

    /// Whether the journal can take `count` more events.
    pub fn has_room(&self, count: usize) -> (ok: bool)
        requires
            self.wf(),
        ensures
            ok == self.journal().has_room(count as nat),
    {
        self.channel.has_room(count)
    }

    /// Subscribes a reader to the journal. It will be handed the events
    /// noted from now on.
    pub fn register_reader(&mut self) -> (reader: ReaderId)
        requires
            old(self).wf(),
        ensures
            final(self).wf(),
            final(self)@ == old(self)@,
            !old(self).journal().live(reader.spec_slot()),
            0 <= reader.spec_slot() <= old(self).journal().positions.len(),
            forall|slot: int| 0 <= slot < reader.spec_slot() ==> old(self).journal().live(slot),
            final(self).journal() == old(self).journal().subscribe(reader.spec_slot()),
            final(self).registered(&reader),
    {
        self.channel.register_reader()
    }

    /// Ends the subscription of `reader`.
    pub fn unregister_reader(&mut self, reader: ReaderId)
        requires
            old(self).wf(),
            old(self).registered(&reader),
        ensures
            final(self).wf(),
            final(self)@ == old(self)@,
            final(self).journal() == old(self).journal().unsubscribe(reader.spec_slot()),
    {
        self.channel.unregister_reader(reader)
    }

    /// Hands `reader` the events noted since its previous read, oldest
    /// first, and moves it past them.
    pub fn read(&mut self, reader: &ReaderId) -> (events: Vec<ComponentEvent>)
        requires
            old(self).wf(),
            old(self).registered(reader),
        ensures
            final(self).wf(),
            final(self)@ == old(self)@,
            events@ == old(self).journal().pending(reader.spec_slot()),
            events_in_range(events@),
            final(self).journal() == old(self).journal().read(reader.spec_slot()),
            final(self).registered(reader),
    {
        proof {
            self.channel.lemma_view_wf();
        }
        self.channel.read(reader)
    }

    /// Whether the journal would refuse the next event.
    pub fn is_starved(&self) -> (starved: bool)
        requires
            self.wf(),
        ensures
            starved == self.journal().starved(),
    {
        self.channel.is_starved()
    }

    /// The entities that have a component, in increasing order.
    pub fn entities(&self) -> (ids: Vec<u32>)
        requires
            self.wf(),
        ensures
            ids@ == ascending(self@.dom()),
    {
        let mut ids: Vec<u32> = Vec::new();
        let mut entity: usize = 0;
        while entity < self.slots.len()
            invariant
                0 <= entity <= self.slots@.len(),
                self.slots@.len() <= MAX_ENTITIES,
                ids@ == ascending_below(self@.dom(), entity as int),
            decreases self.slots@.len() - entity,
        {
            if self.slots[entity].is_some() {
                ids.push(entity as u32);
            }
            entity += 1;
        }
        proof {
            lemma_ascending_below(self@.dom(), self.slots@.len() as int);
            assert forall|id: u32| ids@.contains(id) <==> self@.dom().contains(id) && id
                < 0x1_0000_0000 by {
            }
            lemma_ascending_unique(ids@, self@.dom(), 0x1_0000_0000);
        }
        ids
    }

    /// A bound on the entities that have a component: none at or above it
    /// has one.
    pub(crate) fn bound(&self) -> (bound: u32)
        requires
            self.wf(),
        ensures
            bound <= MAX_ENTITIES,
            forall|e: u32| self@.contains_key(e) ==> e < bound,
    {
        self.slots.len() as u32
    }
}

} // verus!
