//! The change journal of a component store.
//!
//! A channel is an append-only log of component events. Any number of readers
//! subscribe to it; each reader has a position of its own and is handed, at
//! every read, the events written since its previous read. Events that every
//! reader has seen are discarded. A reader that stops reading holds events
//! back: once it is `limit` events behind, writing fails rather than grow
//! the log or drop what the reader has not seen.

use vstd::prelude::*;

verus! {

/// What happened to the component of an entity.
#[derive(Clone, Copy, Debug, PartialEq, Eq, Structural)]
pub enum ComponentEvent {
    /// A component was inserted for the entity.
    Inserted(u32),
    /// The component of the entity was handed out for mutation.
    Modified(u32),
    /// The component of the entity was removed.
    Removed(u32),
}

impl ComponentEvent {
    /// The entity that the event is about.
    pub open spec fn spec_entity(self) -> u32 {
        match self {
            ComponentEvent::Inserted(id) => id,
            ComponentEvent::Modified(id) => id,
            ComponentEvent::Removed(id) => id,
        }
    }

    /// The entity that the event is about.
    pub fn entity(&self) -> (id: u32)
        ensures
            id == self.spec_entity(),
    {
        match self {
            ComponentEvent::Inserted(id) => *id,
            ComponentEvent::Modified(id) => *id,
            ComponentEvent::Removed(id) => *id,
        }
    }
}

/// The first `i + 1` of `events` hold an event exactly where the first `i`
/// hold it or it is the event at place `i`.
pub proof fn lemma_one_more_event(events: Seq<ComponentEvent>, i: int)
    requires
        0 <= i < events.len(),
    ensures
        forall|e: ComponentEvent|
            #![trigger events.subrange(0, i + 1).contains(e)]
            #![trigger events.subrange(0, i).contains(e)]
            events.subrange(0, i + 1).contains(e) <==> events.subrange(0, i).contains(e) || e
                == events[i],
{
    let seen = events.subrange(0, i);
    let next = events.subrange(0, i + 1);
    assert forall|e: ComponentEvent| next.contains(e) <==> seen.contains(e) || e == events[i] by {
        if next.contains(e) {
            let k = choose|k: int| 0 <= k < next.len() && next[k] == e;
            if k < i {
                assert(seen[k] == e);
            }
        }
        if seen.contains(e) {
            let k = choose|k: int| 0 <= k < seen.len() && seen[k] == e;
            assert(next[k] == e);
        }
        if e == events[i] {
            assert(next[i] == e);
        }
    }
}

/// Why a channel refused an event.
#[derive(Clone, Copy, Debug, PartialEq, Eq, Structural)]
pub enum ChannelError {
    /// A reader is as far behind as the channel allows.
    Full,
}

/// A subscription to a channel. Whoever holds it reads with it, from the
/// channel that made it; giving it back to that channel ends the
/// subscription.
#[derive(Debug)]
pub struct ReaderId {
    slot: usize,
}

impl ReaderId {
    /// The place of this reader among the readers of its channel.
    pub closed spec fn spec_slot(&self) -> int {
        self.slot as int
    }
}

/// A channel as contracts see it: everything ever written, and where each
/// reader stands in it.
pub struct ChannelView {
    /// Every event written so far, oldest first.
    pub written: Seq<ComponentEvent>,
    /// For each reader slot, the number of written events that the reader has
    /// been handed or that were written before it subscribed; `None` for a
    /// slot without a reader.
    pub positions: Seq<Option<nat>>,
    /// How many events a reader may be behind before writing fails.
    pub limit: nat,
}

impl ChannelView {
    /// Whether `slot` holds a reader.
    pub open spec fn live(self, slot: int) -> bool {
        0 <= slot < self.positions.len() && self.positions[slot] is Some
    }

    /// Every reader stands inside what was written.
    pub open spec fn wf(self) -> bool {
        forall|slot: int| #[trigger] self.live(slot) ==> self.positions[slot]->0 <= self.written.len()
    }

    /// The events that the reader in `slot` has not been handed yet.
    pub open spec fn pending(self, slot: int) -> Seq<ComponentEvent> {
        self.written.subrange(self.positions[slot]->0 as int, self.written.len() as int)
    }

    /// Whether some reader is as far behind as the limit allows.
    pub open spec fn starved(self) -> bool {
        exists|slot: int| #[trigger] self.live(slot) && self.pending(slot).len() >= self.limit
    }

    /// Whether `count` more events can be written: whether no reader would
    /// then be further behind than the limit allows.
    pub open spec fn has_room(self, count: nat) -> bool {
        forall|slot: int| #[trigger] self.live(slot) ==> self.pending(slot).len() + count <= self.limit
    }

    /// A channel with room for `count` events, one or more, takes the next
    /// event, and has room for one event less afterwards.
    pub proof fn lemma_room_after_write(self, event: ComponentEvent, count: nat)
        requires
            self.wf(),
            self.has_room(count),
            count > 0,
        ensures
            !self.starved(),
            self.write(event).wf(),
            self.write(event).has_room((count - 1) as nat),
    {
        let after = self.write(event);
        assert forall|slot: int| #[trigger] after.live(slot) implies after.pending(slot).len() + (
        count - 1) <= after.limit && after.positions[slot]->0 <= after.written.len() by {
            assert(self.live(slot));
        }
    }

    /// A channel with room for some events has room for fewer.
    pub proof fn lemma_room_for_fewer(self, count: nat, fewer: nat)
        requires
            self.has_room(count),
            fewer <= count,
        ensures
            self.has_room(fewer),
    {
        assert forall|slot: int| #[trigger] self.live(slot) implies self.pending(slot).len() + fewer
            <= self.limit by {}
    }

    /// The channel after `event` was written.
    pub open spec fn write(self, event: ComponentEvent) -> ChannelView {
        ChannelView { written: self.written.push(event), ..self }
    }

    /// The channel after the reader in `slot` was handed all it had pending.
    pub open spec fn read(self, slot: int) -> ChannelView {
        ChannelView {
            positions: self.positions.update(slot, Some(self.written.len())),
            ..self
        }
    }

    /// The channel after a reader subscribed in `slot`.
    pub open spec fn subscribe(self, slot: int) -> ChannelView {
        if slot == self.positions.len() {
            ChannelView { positions: self.positions.push(Some(self.written.len())), ..self }
        } else {
            ChannelView {
                positions: self.positions.update(slot, Some(self.written.len())),
                ..self
            }
        }
    }

    /// The channel after the reader in `slot` left.
    pub open spec fn unsubscribe(self, slot: int) -> ChannelView {
        ChannelView { positions: self.positions.update(slot, None), ..self }
    }
}

/// The change journal: see the module's description.
pub struct EventChannel {
    /// The events that some reader has not seen yet, oldest first.
    retained: Vec<ComponentEvent>,
    /// For each reader slot, the index in `retained` of the first event that
    /// the reader has not seen.
    cursors: Vec<Option<usize>>,
    /// Number of slots that hold a reader.
    readers: usize,
    limit: usize,
    written: Ghost<Seq<ComponentEvent>>,
}

impl EventChannel {
    /// Number of written events that are no longer retained.
    closed spec fn dropped(&self) -> int {
        self.written@.len() - self.retained@.len()
    }

    /// Number of slots among the first `n` that hold a reader.
    closed spec fn count_live(cursors: Seq<Option<usize>>, n: int) -> int
        decreases n,
    {
        if n <= 0 {
            0
        } else {
            Self::count_live(cursors, n - 1) + if cursors[n - 1] is Some {
                1int
            } else {
                0int
            }
        }
    }

    /// The channel as contracts see it.
    pub closed spec fn view(&self) -> ChannelView {
        ChannelView {
            written: self.written@,
            positions: Seq::new(
                self.cursors@.len(),
                |slot: int|
                    match self.cursors@[slot] {
                        Some(c) => Some((self.dropped() + c) as nat),
                        None => None,
                    },
            ),
            limit: self.limit as nat,
        }
    }

    /// The invariant of the channel: it retains exactly the events that some
    /// reader has not seen, and never more than the limit.
    pub closed spec fn wf(&self) -> bool {
        &&& self.retained@.len() <= self.written@.len()
        &&& self.retained@ == self.written@.subrange(self.dropped(), self.written@.len() as int)
        &&& self.retained@.len() <= self.limit
        &&& self.readers == Self::count_live(self.cursors@, self.cursors@.len() as int)
        &&& forall|slot: int|
            0 <= slot < self.cursors@.len() && self.cursors@[slot] is Some
                ==> #[trigger] self.cursors@[slot]->0 <= self.retained@.len()
        &&& self.retained@.len() > 0 ==> exists|slot: int|
            0 <= slot < self.cursors@.len() && #[trigger] self.cursors@[slot] == Some(0usize)
    }

    /// Whether `reader` is a subscription that this channel still serves.
    pub open spec fn registered(&self, reader: &ReaderId) -> bool {
        self@.live(reader.spec_slot())
    }

    proof fn lemma_count_live_bounds(cursors: Seq<Option<usize>>, n: int)
        requires
            0 <= n <= cursors.len(),
        ensures
            0 <= Self::count_live(cursors, n) <= n,
            Self::count_live(cursors, n) == 0 <==> (forall|slot: int|
                0 <= slot < n ==> #[trigger] cursors[slot] is None),
        decreases n,
    {
        if n > 0 {
            Self::lemma_count_live_bounds(cursors, n - 1);
        }
    }

    proof fn lemma_count_live_witness(cursors: Seq<Option<usize>>, n: int) -> (slot: int)
        requires
            0 <= n <= cursors.len(),
            Self::count_live(cursors, n) > 0,
        ensures
            0 <= slot < n,
            cursors[slot] is Some,
        decreases n,
    {
        if cursors[n - 1] is Some {
            n - 1
        } else {
            Self::lemma_count_live_witness(cursors, n - 1)
        }
    }

    proof fn lemma_count_live_update(cursors: Seq<Option<usize>>, slot: int, c: Option<usize>, n: int)
        requires
            0 <= slot < cursors.len(),
            0 <= n <= cursors.len(),
        ensures
            Self::count_live(cursors.update(slot, c), n) == Self::count_live(cursors, n) + if slot
                < n {
                (if c is Some {
                    1int
                } else {
                    0int
                }) - (if cursors[slot] is Some {
                    1int
                } else {
                    0int
                })
            } else {
                0int
            },
        decreases n,
    {
        if n > 0 {
            Self::lemma_count_live_update(cursors, slot, c, n - 1);
        }
    }

    proof fn lemma_count_live_push(cursors: Seq<Option<usize>>, c: Option<usize>, n: int)
        requires
            0 <= n <= cursors.len(),
        ensures
            Self::count_live(cursors.push(c), n) == Self::count_live(cursors, n),
        decreases n,
    {
        if n > 0 {
            Self::lemma_count_live_push(cursors, c, n - 1);
        }
    }

    /// The invariant, as far as the view shows it.
    pub proof fn lemma_view_wf(&self)
        requires
            self.wf(),
        ensures
            self@.wf(),
    {
    }

    /// A channel without events and without readers, in which a reader may be
    /// up to `limit` events behind.
    pub fn with_capacity(limit: usize) -> (channel: EventChannel)
        ensures
            channel.wf(),
            channel@.written == Seq::<ComponentEvent>::empty(),
            channel@.positions == Seq::<Option<nat>>::empty(),
            channel@.limit == limit,
    {
        let channel = EventChannel {
            retained: Vec::new(),
            cursors: Vec::new(),
            readers: 0,
            limit,
            written: Ghost(Seq::empty()),
        };
        proof {
            assert(channel.retained@ =~= channel.written@.subrange(0, 0));
            assert(channel@.positions =~= Seq::<Option<nat>>::empty());
        }
        channel
    }

    /// How many events a reader may be behind before writing fails.
    pub fn limit(&self) -> (limit: usize)
        ensures
            limit == self@.limit,
    {
        self.limit
    }

    /// Whether the next write would fail.
    pub fn is_starved(&self) -> (starved: bool)
        requires
            self.wf(),
        ensures
            starved == self@.starved(),
    {
        self.cannot_write()
    }

    fn cannot_write(&self) -> (starved: bool)
        requires
            self.wf(),
        ensures
            starved == self@.starved(),
            starved == (self.readers > 0 && self.retained@.len() >= self.limit),
    {
        let starved = self.readers > 0 && self.retained.len() >= self.limit;
        proof {
            Self::lemma_count_live_bounds(self.cursors@, self.cursors@.len() as int);
            let v = self@;
            if starved {
                if self.retained@.len() > 0 {
                    let slot = choose|slot: int|
                        0 <= slot < self.cursors@.len() && #[trigger] self.cursors@[slot] == Some(
                            0usize,
                        );
                    assert(v.live(slot));
                    assert(v.pending(slot).len() >= v.limit);
                } else {
                    let slot = Self::lemma_count_live_witness(
                        self.cursors@,
                        self.cursors@.len() as int,
                    );
                    assert(v.live(slot));
                    assert(v.pending(slot).len() >= v.limit);
                }
            } else {
                assert forall|slot: int| #[trigger] v.live(slot) implies v.pending(slot).len()
                    < v.limit by {
                    assert(self.cursors@[slot] is Some);
                }
            }
        }
        starved
    }

    /// Whether the next `count` writes would all succeed.
    pub fn has_room(&self, count: usize) -> (ok: bool)
        requires
            self.wf(),
        ensures
            ok == self@.has_room(count as nat),
    {
        let ok = self.readers == 0 || count <= self.limit - self.retained.len();
        proof {
            Self::lemma_count_live_bounds(self.cursors@, self.cursors@.len() as int);
            let v = self@;
            if ok {
                assert forall|slot: int| #[trigger] v.live(slot) implies v.pending(slot).len()
                    + count <= v.limit by {
                    assert(self.cursors@[slot] is Some);
                }
            } else if self.retained@.len() > 0 {
                let slot = choose|slot: int|
                    0 <= slot < self.cursors@.len() && #[trigger] self.cursors@[slot] == Some(
                        0usize,
                    );
                assert(v.live(slot));
                assert(v.pending(slot).len() + count > v.limit);
            } else {
                let slot = Self::lemma_count_live_witness(
                    self.cursors@,
                    self.cursors@.len() as int,
                );
                assert(v.live(slot));
                assert(v.pending(slot).len() + count > v.limit);
            }
        }
        ok
    }

    /// Appends `event` to the log, unless a reader is as far behind as the
    /// limit allows: then nothing is written and the error says so.
    pub fn single_write(&mut self, event: ComponentEvent) -> (result: Result<(), ChannelError>)
        requires
            old(self).wf(),
        ensures
            final(self).wf(),
            old(self)@.starved() ==> result == Err::<(), ChannelError>(ChannelError::Full) && final(self)@ == old(self)@,
            !old(self)@.starved() ==> result == Ok::<(), ChannelError>(()) && final(self)@ == old(self)@.write(event),
    {
        if self.cannot_write() {
            return Err(ChannelError::Full);
        }
        let ghost before = *self;
        proof {
            Self::lemma_count_live_bounds(self.cursors@, self.cursors@.len() as int);
        }
        if self.readers > 0 {
            self.retained.push(event);
        }
        proof {
            self.written@ = self.written@.push(event);
            assert(self.retained@ =~= self.written@.subrange(
                self.dropped(),
                self.written@.len() as int,
            ));
            assert(self@.positions =~= before@.positions);
            if self.retained@.len() > 0 {
                if before.retained@.len() == 0 {
                    // every reader had seen everything, so each stands at the new event
                    let slot = Self::lemma_count_live_witness(
                        before.cursors@,
                        before.cursors@.len() as int,
                    );
                    assert(before.cursors@[slot]->0 <= 0);
                    assert(self.cursors@[slot] == Some(0usize));
                } else {
                    let slot = choose|slot: int|
                        0 <= slot < before.cursors@.len() && #[trigger] before.cursors@[slot]
                            == Some(0usize);
                    assert(self.cursors@[slot] == Some(0usize));
                }
            }
        }
        Ok(())
    }

    /// Subscribes a reader. It will be handed the events written from now on.
    /// The reader takes the first slot that no reader holds.
    pub fn register_reader(&mut self) -> (reader: ReaderId)
        requires
            old(self).wf(),
        ensures
            final(self).wf(),
            !old(self)@.live(reader.spec_slot()),
            0 <= reader.spec_slot() <= old(self)@.positions.len(),
            forall|slot: int| 0 <= slot < reader.spec_slot() ==> old(self)@.live(slot),
            final(self)@ == old(self)@.subscribe(reader.spec_slot()),
            final(self).registered(&reader),
    {
        let ghost before = *self;
        let at = self.retained.len();
        let mut slot: usize = 0;
        while slot < self.cursors.len() && self.cursors[slot].is_some()
            invariant
                *self == before,
                0 <= slot <= self.cursors@.len(),
                forall|s: int| 0 <= s < slot ==> before@.live(s),
            decreases self.cursors@.len() - slot,
        {
            slot += 1;
        }
        proof {
            Self::lemma_count_live_bounds(self.cursors@, self.cursors@.len() as int);
        }
        if slot < self.cursors.len() {
            proof {
                Self::lemma_count_live_update(
                    self.cursors@,
                    slot as int,
                    Some(at),
                    self.cursors@.len() as int,
                );
            }
            self.cursors.set(slot, Some(at));
        } else {
            proof {
                Self::lemma_count_live_push(self.cursors@, Some(at), self.cursors@.len() as int);
            }
            self.cursors.push(Some(at));
        }
        proof {
            assert(Self::count_live(self.cursors@, self.cursors@.len() as int) == before.readers
                + 1);
            Self::lemma_count_live_bounds(self.cursors@, self.cursors@.len() as int);
            assert(self.cursors@.len() == self.cursors.len());
            assert(self.readers == before.readers);
        }
        self.readers = self.readers + 1;
        proof {
            assert(self@.positions =~= before@.subscribe(slot as int).positions);
            if self.retained@.len() > 0 {
                let w = choose|w: int|
                    0 <= w < before.cursors@.len() && #[trigger] before.cursors@[w] == Some(0usize);
                assert(self.cursors@[w] == Some(0usize));
            }
        }
        ReaderId { slot }
    }

    /// Discards the retained events that every reader has seen.
    fn trim(&mut self)
        requires
            old(self).retained@.len() <= old(self).written@.len(),
            old(self).retained@ == old(self).written@.subrange(
                old(self).dropped(),
                old(self).written@.len() as int,
            ),
            old(self).retained@.len() <= old(self).limit,
            old(self).readers == Self::count_live(
                old(self).cursors@,
                old(self).cursors@.len() as int,
            ),
            forall|slot: int|
                0 <= slot < old(self).cursors@.len() && old(self).cursors@[slot] is Some
                    ==> #[trigger] old(self).cursors@[slot]->0 <= old(self).retained@.len(),
        ensures
            final(self).wf(),
            final(self)@ == old(self)@,
    {
        let ghost before = *self;
        // the least cursor, or everything where nobody reads
        let mut least = self.retained.len();
        let mut slot: usize = 0;
        while slot < self.cursors.len()
            invariant
                *self == before,
                0 <= slot <= self.cursors@.len(),
                least <= self.retained@.len(),
                forall|s: int|
                    0 <= s < slot && self.cursors@[s] is Some ==> least
                        <= #[trigger] self.cursors@[s]->0,
                least < self.retained@.len() ==> exists|s: int|
                    0 <= s < slot && #[trigger] self.cursors@[s] == Some(least),
                forall|s: int|
                    0 <= s < self.cursors@.len() && self.cursors@[s] is Some
                        ==> #[trigger] self.cursors@[s]->0 <= self.retained@.len(),
            decreases self.cursors@.len() - slot,
        {
            match self.cursors[slot] {
                Some(c) => {
                    if c < least {
                        least = c;
                    }
                },
                None => {},
            }
            slot += 1;
        }
        if least == 0 {
            proof {
                assert(self@.positions =~= before@.positions);
                if self.retained@.len() > 0 {
                    let s = choose|s: int|
                        0 <= s < self.cursors@.len() && #[trigger] self.cursors@[s] == Some(least);
                    assert(self.cursors@[s] == Some(0usize));
                }
            }
            return ;
        }
        let mut kept: Vec<ComponentEvent> = Vec::new();
        let mut i: usize = least;
        while i < self.retained.len()
            invariant
                *self == before,
                least <= i <= self.retained@.len(),
                kept@ == self.retained@.subrange(least as int, i as int),
            decreases self.retained@.len() - i,
        {
            kept.push(self.retained[i]);
            i += 1;
        }
        self.retained = kept;
        let mut slot: usize = 0;
        while slot < self.cursors.len()
            invariant
                0 <= slot <= self.cursors@.len(),
                self.cursors@.len() == before.cursors@.len(),
                self.retained == kept,
                self.readers == before.readers,
                self.limit == before.limit,
                self.written == before.written,
                forall|s: int|
                    0 <= s < before.cursors@.len() && before.cursors@[s] is Some ==> least
                        <= #[trigger] before.cursors@[s]->0,
                forall|s: int|
                    0 <= s < slot ==> #[trigger] self.cursors@[s] == (match before.cursors@[s] {
                        Some(c) => Some((c - least) as usize),
                        None => None,
                    }),
                forall|s: int|
                    slot <= s < self.cursors@.len() ==> #[trigger] self.cursors@[s]
                        == before.cursors@[s],
            decreases self.cursors@.len() - slot,
        {
            match self.cursors[slot] {
                Some(c) => {
                    self.cursors.set(slot, Some(c - least));
                },
                None => {},
            }
            slot += 1;
        }
        proof {
            assert(self.retained@ =~= self.written@.subrange(
                self.dropped(),
                self.written@.len() as int,
            ));
            assert(self@.positions =~= before@.positions);
            Self::lemma_count_live_same(self.cursors@, before.cursors@, self.cursors@.len() as int);
            if self.retained@.len() > 0 {
                let s = choose|s: int|
                    0 <= s < before.cursors@.len() && #[trigger] before.cursors@[s] == Some(least);
                assert(self.cursors@[s] == Some(0usize));
            }
        }
    }

    proof fn lemma_count_live_same(a: Seq<Option<usize>>, b: Seq<Option<usize>>, n: int)
        requires
            0 <= n <= a.len(),
            a.len() == b.len(),
            forall|s: int| 0 <= s < n ==> (#[trigger] a[s] is Some) == (b[s] is Some),
        ensures
            Self::count_live(a, n) == Self::count_live(b, n),
        decreases n,
    {
        if n > 0 {
            Self::lemma_count_live_same(a, b, n - 1);
        }
    }

    /// Hands `reader` the events written since its previous read (since it
    /// subscribed, at its first read), oldest first, and moves it past them.
    /// Other readers are not affected.
    pub fn read(&mut self, reader: &ReaderId) -> (events: Vec<ComponentEvent>)
        requires
            old(self).wf(),
            old(self).registered(reader),
        ensures
            final(self).wf(),
            events@ == old(self)@.pending(reader.spec_slot()),
            final(self)@ == old(self)@.read(reader.spec_slot()),
            final(self).registered(reader),
    {
        let ghost before = *self;
        let slot = reader.slot;
        let from = match self.cursors[slot] {
            Some(c) => c,
            None => 0,
        };
        let mut events: Vec<ComponentEvent> = Vec::new();
        let mut i: usize = from;
        while i < self.retained.len()
            invariant
                *self == before,
                from <= i <= self.retained@.len(),
                events@ == self.retained@.subrange(from as int, i as int),
            decreases self.retained@.len() - i,
        {
            events.push(self.retained[i]);
            i += 1;
        }
        proof {
            assert(events@ =~= before@.pending(slot as int));
            Self::lemma_count_live_update(
                self.cursors@,
                slot as int,
                Some(self.retained@.len() as usize),
                self.cursors@.len() as int,
            );
        }
        let end = self.retained.len();
        self.cursors.set(slot, Some(end));
        proof {
            assert(self@.positions =~= before@.read(slot as int).positions);
        }
        self.trim();
        events
    }

    /// Ends the subscription of `reader`. Events that only it had not seen are
    /// discarded.
    pub fn unregister_reader(&mut self, reader: ReaderId)
        requires
            old(self).wf(),
            old(self).registered(&reader),
        ensures
            final(self).wf(),
            final(self)@ == old(self)@.unsubscribe(reader.spec_slot()),
    {
        let ghost before = *self;
        let slot = reader.slot;
        proof {
            Self::lemma_count_live_update(
                self.cursors@,
                slot as int,
                None,
                self.cursors@.len() as int,
            );
            Self::lemma_count_live_bounds(self.cursors@, self.cursors@.len() as int);
        }
        self.cursors.set(slot, None);
        self.readers = self.readers - 1;
        proof {
            assert(self@.positions =~= before@.unsubscribe(slot as int).positions);
        }
        self.trim();
    }

    /// Number of events that the channel holds for its readers.
    pub fn retained_len(&self) -> (n: usize)
        requires
            self.wf(),
        ensures
            n <= self@.limit,
            forall|slot: int| #[trigger] self@.live(slot) ==> self@.pending(slot).len() <= n,
            n > 0 ==> exists|slot: int| #[trigger] self@.live(slot) && self@.pending(slot).len() == n,
    {
        proof {
            let v = self@;
            assert forall|slot: int| #[trigger] v.live(slot) implies v.pending(slot).len()
                <= self.retained@.len() by {
                assert(self.cursors@[slot] is Some);
            }
            if self.retained@.len() > 0 {
                let slot = choose|slot: int|
                    0 <= slot < self.cursors@.len() && #[trigger] self.cursors@[slot] == Some(
                        0usize,
                    );
                assert(v.live(slot));
                assert(v.pending(slot).len() == self.retained@.len());
            }
        }
        self.retained.len()
    }
}

/// One step in the life of a channel, as the laws below speak of it.
pub enum ChannelOp {
    /// An event is offered to the channel.
    Write(ComponentEvent),
    /// The reader in the given slot reads.
    Read(int),
}

impl ChannelView {
    /// The channel after `op`. A write that finds a reader starved is refused
    /// and a read from a slot without a reader hands out nothing: both leave
    /// the channel as it was.
    pub open spec fn step(self, op: ChannelOp) -> ChannelView {
        match op {
            ChannelOp::Write(event) => if self.starved() {
                self
            } else {
                self.write(event)
            },
            ChannelOp::Read(slot) => if self.live(slot) {
                self.read(slot)
            } else {
                self
            },
        }
    }

    /// The channel after `ops`, applied in order.
    pub open spec fn run(self, ops: Seq<ChannelOp>) -> ChannelView
        decreases ops.len(),
    {
        if ops.len() == 0 {
            self
        } else {
            self.run(ops.drop_last()).step(ops.last())
        }
    }

    /// The events that the channel accepted in the course of `ops`, in order.
    pub open spec fn accepted(self, ops: Seq<ChannelOp>) -> Seq<ComponentEvent>
        decreases ops.len(),
    {
        if ops.len() == 0 {
            Seq::empty()
        } else {
            let before = self.run(ops.drop_last());
            match ops.last() {
                ChannelOp::Write(event) => if before.starved() {
                    self.accepted(ops.drop_last())
                } else {
                    self.accepted(ops.drop_last()).push(event)
                },
                ChannelOp::Read(_) => self.accepted(ops.drop_last()),
            }
        }
    }

    /// The events that the reader in `slot` was handed in the course of
    /// `ops`: what each of its reads returned, one read after the other.
    pub open spec fn delivered(self, ops: Seq<ChannelOp>, slot: int) -> Seq<ComponentEvent>
        decreases ops.len(),
    {
        if ops.len() == 0 {
            Seq::empty()
        } else {
            let before = self.run(ops.drop_last());
            match ops.last() {
                ChannelOp::Write(_) => self.delivered(ops.drop_last(), slot),
                ChannelOp::Read(s) => if s == slot && before.live(slot) {
                    self.delivered(ops.drop_last(), slot) + before.pending(slot)
                } else {
                    self.delivered(ops.drop_last(), slot)
                },
            }
        }
    }
}

/// Writing and reading keep every reader in its slot and inside what was
/// written.
pub proof fn lemma_run_keeps_readers(channel: ChannelView, ops: Seq<ChannelOp>)
    requires
        channel.wf(),
    ensures
        channel.run(ops).wf(),
        channel.run(ops).limit == channel.limit,
        channel.run(ops).positions.len() == channel.positions.len(),
        forall|slot: int| channel.live(slot) == #[trigger] channel.run(ops).live(slot),
    decreases ops.len(),
{
    if ops.len() > 0 {
        lemma_run_keeps_readers(channel, ops.drop_last());
        let before = channel.run(ops.drop_last());
        let after = channel.run(ops);
        assert forall|slot: int| #[trigger] after.live(slot) implies after.positions[slot]->0
            <= after.written.len() by {
            assert(before.live(slot));
        }
        assert forall|slot: int| channel.live(slot) == #[trigger] after.live(slot) by {
            assert(channel.live(slot) == before.live(slot));
        }
    }
}

/// Each event reaches each reader exactly once, in the order of writing.
///
/// Whatever writes and reads happen, and in whatever order: the events that
/// a reader was handed, followed by those it still has pending, are the
/// events it had pending at the start followed by the events that the
/// channel accepted since. Nothing is handed out twice, left out or
/// reordered, and reads by other readers change nothing for this one.
pub proof fn law_each_event_once_in_order(channel: ChannelView, ops: Seq<ChannelOp>, slot: int)
    requires
        channel.wf(),
        channel.live(slot),
    ensures
        channel.delivered(ops, slot) + channel.run(ops).pending(slot) == channel.pending(slot)
            + channel.accepted(ops),
    decreases ops.len(),
{
    if ops.len() == 0 {
        assert(channel.delivered(ops, slot) + channel.run(ops).pending(slot) =~= channel.pending(
            slot,
        ) + channel.accepted(ops));
    } else {
        let earlier = ops.drop_last();
        law_each_event_once_in_order(channel, earlier, slot);
        lemma_run_keeps_readers(channel, earlier);
        let before = channel.run(earlier);
        let after = channel.run(ops);
        assert(before.live(slot));
        let handed = channel.delivered(earlier, slot);
        let taken = channel.accepted(earlier);
        let waiting = channel.pending(slot);
        assert(handed + before.pending(slot) == waiting + taken);
        match ops.last() {
            ChannelOp::Write(event) => {
                assert(channel.delivered(ops, slot) == handed);
                if before.starved() {
                    assert(after == before);
                    assert(channel.accepted(ops) == taken);
                } else {
                    assert(channel.accepted(ops) == taken.push(event));
                    assert(after.pending(slot) =~= before.pending(slot).push(event));
                    assert(handed + before.pending(slot).push(event) =~= (handed + before.pending(
                        slot,
                    )).push(event));
                    assert((waiting + taken).push(event) =~= waiting + taken.push(event));
                }
            },
            ChannelOp::Read(s) => {
                assert(channel.accepted(ops) == taken);
                if s == slot {
                    assert(channel.delivered(ops, slot) == handed + before.pending(slot));
                    assert(after.pending(slot) =~= Seq::<ComponentEvent>::empty());
                    assert(handed + before.pending(slot) + Seq::<ComponentEvent>::empty() =~= handed
                        + before.pending(slot));
                } else {
                    assert(channel.delivered(ops, slot) == handed);
                    assert(after.pending(slot) =~= before.pending(slot));
                }
            },
        }
    }
}

/// A reader that reads last has been handed everything: what it had pending
/// at the start and every event accepted since, each once and in order.
pub proof fn law_drained_reader_saw_everything(
    channel: ChannelView,
    ops: Seq<ChannelOp>,
    slot: int,
)
    requires
        channel.wf(),
        channel.live(slot),
        ops.len() > 0,
        ops.last() == ChannelOp::Read(slot),
    ensures
        channel.delivered(ops, slot) == channel.pending(slot) + channel.accepted(ops),
        channel.run(ops).pending(slot) == Seq::<ComponentEvent>::empty(),
{
    law_each_event_once_in_order(channel, ops, slot);
    lemma_run_keeps_readers(channel, ops.drop_last());
    let before = channel.run(ops.drop_last());
    assert(before.live(slot));
    assert(channel.run(ops).pending(slot) =~= Seq::<ComponentEvent>::empty());
    assert(channel.delivered(ops, slot) + Seq::<ComponentEvent>::empty() =~= channel.delivered(
        ops,
        slot,
    ));
}

/// Two readers that stand at the same place see the same events, whenever
/// each of them reads: for both, what was handed out followed by what is
/// pending is the same sequence.
pub proof fn law_readers_agree(channel: ChannelView, ops: Seq<ChannelOp>, a: int, b: int)
    requires
        channel.wf(),
        channel.live(a),
        channel.live(b),
        channel.positions[a] == channel.positions[b],
    ensures
        channel.delivered(ops, a) + channel.run(ops).pending(a) == channel.delivered(ops, b)
            + channel.run(ops).pending(b),
{
    law_each_event_once_in_order(channel, ops, a);
    law_each_event_once_in_order(channel, ops, b);
}

} // verus!
