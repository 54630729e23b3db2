//! The scheduler: in which order the systems of a frame run.
//!
//! A system declares which resources it reads and which it writes, as bit
//! masks, and which systems have to be done before it starts. The builder
//! puts each system into a stage. The systems of one stage may run side by
//! side; a stage starts when the stage before it is done. A barrier makes
//! every system that is added after it wait for every system that was added
//! before it. Thread-local systems run last, one at a time, on the thread
//! that dispatches.

use vstd::prelude::*;

verus! {

/// What the scheduler knows of a system.
#[derive(Debug)]
pub struct SystemInfo {
    pub name: &'static str,
    /// The resources that the system reads, one bit each.
    pub reads: u64,
    /// The resources that the system writes, one bit each.
    pub writes: u64,
    /// The systems that must be done before this one starts, by the numbers
    /// that the builder gave them.
    pub dependencies: Vec<usize>,
    /// The stage that the system runs in.
    pub stage: usize,
    /// Number of barriers that were set before the system was added.
    pub epoch: usize,
}

/// Whether two systems must not run side by side: whether one writes what
/// the other reads or writes.
pub open spec fn conflict(reads_a: u64, writes_a: u64, reads_b: u64, writes_b: u64) -> bool {
    (writes_a & (reads_b | writes_b)) != 0 || (writes_b & reads_a) != 0
}

/// The least stage that lies behind the stages of the first `n` of
/// `dependencies`.
pub open spec fn stage_after_dependencies(
    systems: Seq<SystemInfo>,
    dependencies: Seq<usize>,
    n: int,
) -> int
    decreases n,
{
    if n <= 0 {
        0
    } else {
        let rest = stage_after_dependencies(systems, dependencies, n - 1);
        let own = systems[dependencies[n - 1] as int].stage + 1;
        if own > rest {
            own
        } else {
            rest
        }
    }
}

/// The least stage that lies behind the stages of those of the first `n`
/// systems that a system with the given reads and writes conflicts with.
pub open spec fn stage_after_conflicts(systems: Seq<SystemInfo>, reads: u64, writes: u64, n: int) -> int
    decreases n,
{
    if n <= 0 {
        0
    } else {
        let rest = stage_after_conflicts(systems, reads, writes, n - 1);
        let other = systems[n - 1];
        if conflict(reads, writes, other.reads, other.writes) && other.stage + 1 > rest {
            other.stage + 1
        } else {
            rest
        }
    }
}

/// The stage of a new system: the first stage that is not before the last
/// barrier, behind every dependency, and behind every system that the new
/// one conflicts with.
pub open spec fn stage_for(
    systems: Seq<SystemInfo>,
    floor: int,
    reads: u64,
    writes: u64,
    dependencies: Seq<usize>,
) -> int {
    let by_dependencies = stage_after_dependencies(
        systems,
        dependencies,
        dependencies.len() as int,
    );
    let by_conflicts = stage_after_conflicts(systems, reads, writes, systems.len() as int);
    let later = if by_dependencies > by_conflicts {
        by_dependencies
    } else {
        by_conflicts
    };
    if later > floor {
        later
    } else {
        floor
    }
}

/// Whether the stages of `systems` keep the rules of the scheduler:
///
/// - a system runs in a later stage than each of its dependencies, which
///   were added before it;
/// - two systems of one stage do not conflict;
/// - a system that was added after a barrier runs in a later stage than
///   every system that was added before the barrier;
/// - the stages are numbered below `stage_count`.
pub open spec fn well_staged(systems: Seq<SystemInfo>, stage_count: int) -> bool {
    &&& forall|i: int| 0 <= i < systems.len() ==> (#[trigger] systems[i]).stage < stage_count
    &&& forall|i: int, k: int|
        0 <= i < systems.len() && 0 <= k < systems[i].dependencies@.len() ==> {
            let d = #[trigger] systems[i].dependencies@[k];
            d < i && systems[d as int].stage < systems[i].stage
        }
    &&& forall|i: int, j: int|
        0 <= i < j < systems.len() && (#[trigger] systems[i]).stage == (#[trigger] systems[j]).stage
            ==> !conflict(systems[i].reads, systems[i].writes, systems[j].reads, systems[j].writes)
    &&& forall|i: int, j: int|
        0 <= i < systems.len() && 0 <= j < systems.len() && (#[trigger] systems[i]).epoch < (
        #[trigger] systems[j]).epoch ==> systems[i].stage < systems[j].stage
}

/// Collects the systems of a frame and puts them into stages.
#[derive(Debug)]
pub struct DispatcherBuilder {
    pub systems: Vec<SystemInfo>,
    pub thread_local: Vec<&'static str>,
    /// Number of stages in use.
    pub stage_count: usize,
    /// The first stage that a system added now may run in.
    pub floor: usize,
    /// Number of barriers set so far.
    pub epoch: usize,
}

impl DispatcherBuilder {
    /// The invariant of the builder.
    pub open spec fn wf(&self) -> bool {
        &&& well_staged(self.systems@, self.stage_count as int)
        &&& self.stage_count <= self.systems@.len()
        &&& self.floor <= self.stage_count
        &&& forall|i: int|
            0 <= i < self.systems@.len() ==> (#[trigger] self.systems@[i]).epoch <= self.epoch
        &&& forall|i: int|
            0 <= i < self.systems@.len() && (#[trigger] self.systems@[i]).epoch < self.epoch
                ==> self.systems@[i].stage < self.floor
    }

    /// A builder without systems.
    pub fn new() -> (builder: DispatcherBuilder)
        ensures
            builder.wf(),
            builder.systems@.len() == 0,
            builder.thread_local@.len() == 0,
            builder.stage_count == 0,
            builder.floor == 0,
            builder.epoch == 0,
    {
        DispatcherBuilder {
            systems: Vec::new(),
            thread_local: Vec::new(),
            stage_count: 0,
            floor: 0,
            epoch: 0,
        }
    }

    /// The least stage behind the dependencies.
    fn after_dependencies(&self, dependencies: &Vec<usize>) -> (stage: usize)
        requires
            self.wf(),
            forall|k: int|
                0 <= k < dependencies@.len() ==> (#[trigger] dependencies@[k]) < self.systems@.len(),
        ensures
            stage == stage_after_dependencies(
                self.systems@,
                dependencies@,
                dependencies@.len() as int,
            ),
            stage <= self.stage_count,
    {
        let mut stage: usize = 0;
        let mut k: usize = 0;
        while k < dependencies.len()
            invariant
                0 <= k <= dependencies@.len(),
                self.wf(),
                forall|j: int|
                    0 <= j < dependencies@.len() ==> (#[trigger] dependencies@[j])
                        < self.systems@.len(),
                stage == stage_after_dependencies(self.systems@, dependencies@, k as int),
                stage <= self.stage_count,
            decreases dependencies@.len() - k,
        {
            let d = dependencies[k];
            assert(self.systems@[d as int].stage < self.stage_count);
            let own = self.systems[d].stage + 1;
            if own > stage {
                stage = own;
            }
            k += 1;
        }
        stage
    }

    /// The least stage behind the systems that conflict.
    fn after_conflicts(&self, reads: u64, writes: u64) -> (stage: usize)
        requires
            self.wf(),
        ensures
            stage == stage_after_conflicts(self.systems@, reads, writes, self.systems@.len() as int),
            stage <= self.stage_count,
    {
        let mut stage: usize = 0;
        let mut i: usize = 0;
        while i < self.systems.len()
            invariant
                0 <= i <= self.systems@.len(),
                self.wf(),
                stage == stage_after_conflicts(self.systems@, reads, writes, i as int),
                stage <= self.stage_count,
            decreases self.systems@.len() - i,
        {
            let other = &self.systems[i];
            assert(self.systems@[i as int].stage < self.stage_count);
            let conflicts = (writes & (other.reads | other.writes)) != 0 || (other.writes & reads)
                != 0;
            if conflicts && other.stage + 1 > stage {
                stage = other.stage + 1;
            }
            i += 1;
        }
        stage
    }

    /// Adds a system and gives it the next number. The system runs in the
    /// stage that [`stage_for`] says. Its dependencies must have been added
    /// before.
    pub fn with(
        &mut self,
        name: &'static str,
        reads: u64,
        writes: u64,
        dependencies: Vec<usize>,
    ) -> (id: usize)
        requires
            old(self).wf(),
            forall|k: int|
                0 <= k < dependencies@.len() ==> (#[trigger] dependencies@[k]) < old(self).systems@.len(),
        ensures
            final(self).wf(),
            id == old(self).systems@.len(),
            final(self).systems@.len() == id + 1,
            final(self).systems@.subrange(0, id as int) == old(self).systems@,
            final(self).systems@[id as int].name == name,
            final(self).systems@[id as int].reads == reads,
            final(self).systems@[id as int].writes == writes,
            final(self).systems@[id as int].dependencies == dependencies,
            final(self).systems@[id as int].epoch == old(self).epoch,
            final(self).systems@[id as int].stage == stage_for(
                old(self).systems@,
                old(self).floor as int,
                reads,
                writes,
                dependencies@,
            ),
            final(self).thread_local == old(self).thread_local,
            final(self).floor == old(self).floor,
            final(self).epoch == old(self).epoch,
    {
        let by_dependencies = self.after_dependencies(&dependencies);
        let by_conflicts = self.after_conflicts(reads, writes);
        let later = if by_dependencies > by_conflicts {
            by_dependencies
        } else {
            by_conflicts
        };
        let stage = if later > self.floor {
            later
        } else {
            self.floor
        };
        let id = self.systems.len();
        proof {
            lemma_behind_dependencies(
                self.systems@,
                dependencies@,
                dependencies@.len() as int,
            );
            lemma_behind_conflicts(self.systems@, reads, writes, self.systems@.len() as int);
        }
        let ghost before = self.systems@;
        self.systems.push(
            SystemInfo { name, reads, writes, dependencies, stage, epoch: self.epoch },
        );
        if stage == self.stage_count {
            assert(self.stage_count <= id);
            assert(self.systems@.len() == id + 1);
            assert(self.systems@.len() == self.systems.len());
            self.stage_count = self.stage_count + 1;
        }
        proof {
            let after = self.systems@;
            assert(after.subrange(0, id as int) =~= before);
            assert forall|i: int| 0 <= i < after.len() implies (#[trigger] after[i]).stage
                < self.stage_count by {
                if i < id {
                    assert(after[i] == before[i]);
                }
            }
            assert forall|i: int, k: int|
                0 <= i < after.len() && 0 <= k < after[i].dependencies@.len() implies {
                let d = #[trigger] after[i].dependencies@[k];
                d < i && after[d as int].stage < after[i].stage
            } by {
                let d = after[i].dependencies@[k];
                if i < id {
                    assert(after[i] == before[i]);
                    let bd = before[i].dependencies@[k];
                    assert(bd < i && before[bd as int].stage < before[i].stage);
                    assert(after[d as int] == before[d as int]);
                } else {
                    assert(after[d as int] == before[d as int]);
                }
            }
            assert forall|i: int, j: int|
                0 <= i < j < after.len() && (#[trigger] after[i]).stage == (
                #[trigger] after[j]).stage implies !conflict(
                after[i].reads,
                after[i].writes,
                after[j].reads,
                after[j].writes,
            ) by {
                if j < id {
                    assert(after[i] == before[i]);
                    assert(after[j] == before[j]);
                } else {
                    assert(after[i] == before[i]);
                    lemma_conflict_symmetric(reads, writes, before[i].reads, before[i].writes);
                }
            }
            assert forall|i: int, j: int|
                0 <= i < after.len() && 0 <= j < after.len() && (#[trigger] after[i]).epoch < (
                #[trigger] after[j]).epoch implies after[i].stage < after[j].stage by {
                if i < id {
                    assert(after[i] == before[i]);
                }
                if j < id {
                    assert(after[j] == before[j]);
                }
            }
            assert forall|i: int| 0 <= i < after.len() implies (#[trigger] after[i]).epoch
                <= self.epoch by {
                if i < id {
                    assert(after[i] == before[i]);
                }
            }
            assert forall|i: int|
                0 <= i < after.len() && (#[trigger] after[i]).epoch < self.epoch implies after[i].stage
                < self.floor by {
                if i < id {
                    assert(after[i] == before[i]);
                }
            }
        }
        id
    }

    /// Sets a barrier: every system added from now on runs after every
    /// system added so far.
    pub fn with_barrier(&mut self)
        requires
            old(self).wf(),
            old(self).epoch < usize::MAX,
        ensures
            final(self).wf(),
            final(self).systems == old(self).systems,
            final(self).thread_local == old(self).thread_local,
            final(self).stage_count == old(self).stage_count,
            final(self).floor == old(self).stage_count,
            final(self).epoch == old(self).epoch + 1,
    {
        self.floor = self.stage_count;
        self.epoch = self.epoch + 1;
    }

    /// Adds a system that runs on the dispatching thread, after every
    /// staged system and after the thread-local systems added before it.
    pub fn with_thread_local(&mut self, name: &'static str)
        requires
            old(self).wf(),
        ensures
            final(self).wf(),
            final(self).systems == old(self).systems,
            final(self).thread_local@ == old(self).thread_local@.push(name),
            final(self).stage_count == old(self).stage_count,
            final(self).floor == old(self).floor,
            final(self).epoch == old(self).epoch,
    {
        self.thread_local.push(name);
    }

    /// The dispatcher of the systems added.
    pub fn build(self) -> (dispatcher: Dispatcher)
        requires
            self.wf(),
        ensures
            dispatcher.wf(),
            dispatcher.systems == self.systems,
            dispatcher.thread_local == self.thread_local,
            dispatcher.stage_count == self.stage_count,
    {
        Dispatcher {
            systems: self.systems,
            thread_local: self.thread_local,
            stage_count: self.stage_count,
        }
    }
}

proof fn lemma_conflict_symmetric(reads_a: u64, writes_a: u64, reads_b: u64, writes_b: u64)
    ensures
        conflict(reads_a, writes_a, reads_b, writes_b) == conflict(
            reads_b,
            writes_b,
            reads_a,
            writes_a,
        ),
{
    assert(((writes_a & (reads_b | writes_b)) != 0 || (writes_b & reads_a) != 0) == ((writes_b & (
    reads_a | writes_a)) != 0 || (writes_a & reads_b) != 0)) by (bit_vector);
}

proof fn lemma_behind_dependencies(systems: Seq<SystemInfo>, dependencies: Seq<usize>, n: int)
    requires
        0 <= n <= dependencies.len(),
    ensures
        forall|k: int|
            0 <= k < n ==> systems[(#[trigger] dependencies[k]) as int].stage
                < stage_after_dependencies(systems, dependencies, n),
    decreases n,
{
    if n > 0 {
        lemma_behind_dependencies(systems, dependencies, n - 1);
    }
}

proof fn lemma_behind_conflicts(systems: Seq<SystemInfo>, reads: u64, writes: u64, n: int)
    requires
        0 <= n <= systems.len(),
    ensures
        forall|i: int|
            0 <= i < n && conflict(
                reads,
                writes,
                (#[trigger] systems[i]).reads,
                systems[i].writes,
            ) ==> systems[i].stage < stage_after_conflicts(systems, reads, writes, n),
    decreases n,
{
    if n > 0 {
        lemma_behind_conflicts(systems, reads, writes, n - 1);
    }
}

/// One step of a dispatch.
#[derive(Debug, PartialEq, Eq)]
pub enum Stage {
    /// These systems run now, side by side; the next step waits for all of
    /// them.
    Parallel(Vec<usize>),
    /// This thread-local system runs now, alone, on the dispatching thread.
    ThreadLocal(usize),
}

/// The numbers below `n` of the systems that run in the stage `stage`, in
/// increasing order.
pub open spec fn stage_members(systems: Seq<SystemInfo>, stage: int, n: int) -> Seq<usize>
    decreases n,
{
    if n <= 0 {
        Seq::empty()
    } else if systems[n - 1].stage == stage {
        stage_members(systems, stage, n - 1).push((n - 1) as usize)
    } else {
        stage_members(systems, stage, n - 1)
    }
}

/// The systems of a frame, in stages.
#[derive(Debug)]
pub struct Dispatcher {
    pub systems: Vec<SystemInfo>,
    pub thread_local: Vec<&'static str>,
    pub stage_count: usize,
}

impl Dispatcher {
    /// The invariant of the dispatcher: the rules of the scheduler hold.
    pub open spec fn wf(&self) -> bool {
        &&& well_staged(self.systems@, self.stage_count as int)
        &&& self.stage_count <= self.systems@.len()
    }

    /// Number of steps of a dispatch.
    pub open spec fn steps(&self) -> int {
        self.stage_count + self.thread_local@.len()
    }

    /// Whether `plan` is the plan of a dispatch of this dispatcher: one
    /// parallel step for each stage, in the order of the stages, with the
    /// systems of the stage in the order in which they were added; then one
    /// step for each thread-local system, in the order in which they were
    /// added.
    pub open spec fn is_plan(&self, plan: Seq<Stage>) -> bool {
        &&& plan.len() == self.steps()
        &&& forall|s: int|
            0 <= s < self.stage_count ==> (#[trigger] plan[s] matches Stage::Parallel(members)
                && members@ == stage_members(self.systems@, s, self.systems@.len() as int))
        &&& forall|s: int|
            self.stage_count <= s < plan.len() ==> #[trigger] plan[s] == Stage::ThreadLocal(
                (s - self.stage_count) as usize,
            )
    }

    /// The plan of one dispatch: every step of the frame, in the order in
    /// which the steps are taken. A dispatch takes every step, once, and
    /// returns when the last one is done.
    pub fn dispatch(&self) -> (plan: Vec<Stage>)
        requires
            self.wf(),
        ensures
            self.is_plan(plan@),
    {
        let mut plan: Vec<Stage> = Vec::new();
        let mut stage: usize = 0;
        while stage < self.stage_count
            invariant
                0 <= stage <= self.stage_count,
                plan@.len() == stage,
                forall|s: int|
                    0 <= s < stage ==> (#[trigger] plan@[s] matches Stage::Parallel(members)
                        && members@ == stage_members(
                        self.systems@,
                        s,
                        self.systems@.len() as int,
                    )),
            decreases self.stage_count - stage,
        {
            let mut members: Vec<usize> = Vec::new();
            let mut i: usize = 0;
            while i < self.systems.len()
                invariant
                    0 <= i <= self.systems@.len(),
                    members@ == stage_members(self.systems@, stage as int, i as int),
                decreases self.systems@.len() - i,
            {
                if self.systems[i].stage == stage {
                    members.push(i);
                }
                i += 1;
            }
            let ghost before = plan@;
            plan.push(Stage::Parallel(members));
            proof {
                assert forall|s: int| 0 <= s < stage + 1 implies (#[trigger] plan@[s]
                    matches Stage::Parallel(m) && m@ == stage_members(
                    self.systems@,
                    s,
                    self.systems@.len() as int,
                )) by {
                    if s < stage {
                        assert(plan@[s] == before[s]);
                    }
                }
            }
            stage += 1;
        }
        let mut t: usize = 0;
        while t < self.thread_local.len()
            invariant
                0 <= t <= self.thread_local@.len(),
                stage == self.stage_count,
                plan@.len() == self.stage_count + t,
                forall|s: int|
                    0 <= s < self.stage_count ==> (#[trigger] plan@[s] matches Stage::Parallel(
                        members,
                    ) && members@ == stage_members(
                        self.systems@,
                        s,
                        self.systems@.len() as int,
                    )),
                forall|s: int|
                    self.stage_count <= s < plan@.len() ==> #[trigger] plan@[s]
                        == Stage::ThreadLocal((s - self.stage_count) as usize),
            decreases self.thread_local@.len() - t,
        {
            let ghost before = plan@;
            plan.push(Stage::ThreadLocal(t));
            proof {
                assert forall|s: int| 0 <= s < self.stage_count implies (#[trigger] plan@[s]
                    matches Stage::Parallel(m) && m@ == stage_members(
                    self.systems@,
                    s,
                    self.systems@.len() as int,
                )) by {
                    assert(plan@[s] == before[s]);
                }
                assert forall|s: int| self.stage_count <= s < plan@.len() implies #[trigger] plan@[s]
                    == Stage::ThreadLocal((s - self.stage_count) as usize) by {
                    if s < before.len() {
                        assert(plan@[s] == before[s]);
                    }
                }
            }
            t += 1;
        }
        plan
    }
}

/// What a stage holds: exactly the systems of that stage, each once, in the
/// order in which they were added.
pub proof fn lemma_stage_members(systems: Seq<SystemInfo>, stage: int, n: int)
    requires
        0 <= n <= systems.len(),
        systems.len() <= usize::MAX,
    ensures
        forall|i: int, j: int|
            #![trigger stage_members(systems, stage, n)[i], stage_members(systems, stage, n)[j]]
            0 <= i < j < stage_members(systems, stage, n).len() ==> stage_members(
                systems,
                stage,
                n,
            )[i] < stage_members(systems, stage, n)[j],
        forall|k: int|
            0 <= k < stage_members(systems, stage, n).len() ==> (#[trigger] stage_members(
                systems,
                stage,
                n,
            )[k]) < n && systems[stage_members(systems, stage, n)[k] as int].stage == stage,
        forall|i: usize|
            i < n && systems[i as int].stage == stage ==> #[trigger] stage_members(
                systems,
                stage,
                n,
            ).contains(i),
    decreases n,
{
    if n > 0 {
        lemma_stage_members(systems, stage, n - 1);
        let rest = stage_members(systems, stage, n - 1);
        let all = stage_members(systems, stage, n);
        let top = (n - 1) as usize;
        if systems[n - 1].stage == stage {
            assert(all == rest.push(top));
            assert forall|k: int| 0 <= k < all.len() implies (#[trigger] all[k]) < n
                && systems[all[k] as int].stage == stage by {
                if k < rest.len() {
                    assert(all[k] == rest[k]);
                }
            }
            assert forall|i: int, j: int|
                #![trigger all[i], all[j]]
                0 <= i < j < all.len() implies all[i] < all[j] by {
                assert(all[i] == rest[i]);
                if j < rest.len() {
                    assert(all[j] == rest[j]);
                } else {
                    assert(rest[i] < n - 1);
                }
            }
            assert forall|i: usize| i < n && systems[i as int].stage == stage implies #[trigger] all.contains(
                i,
            ) by {
                if i == top {
                    assert(all[rest.len() as int] == i);
                } else {
                    assert(rest.contains(i));
                    let k = choose|k: int| 0 <= k < rest.len() && rest[k] == i;
                    assert(all[k] == i);
                }
            }
        } else {
            assert(all == rest);
        }
    }
}

/// The order of a dispatch: a system starts only when each of its
/// dependencies is done, systems that run side by side do not conflict,
/// and no system that was added after a barrier starts before every system
/// that was added before the barrier is done. Steps are taken in the order
/// of the plan, and a step is done before the next one starts; so a system
/// of an earlier stage is done before a system of a later stage starts.
pub proof fn law_dispatch_order(dispatcher: &Dispatcher, a: usize, b: usize)
    requires
        dispatcher.wf(),
        a < dispatcher.systems@.len(),
        b < dispatcher.systems@.len(),
    ensures
        stage_members(
            dispatcher.systems@,
            dispatcher.systems@[a as int].stage as int,
            dispatcher.systems@.len() as int,
        ).contains(a),
        dispatcher.systems@[a as int].stage < dispatcher.stage_count,
        dispatcher.systems@[b as int].dependencies@.contains(a) ==> dispatcher.systems@[a as int].stage
            < dispatcher.systems@[b as int].stage,
        dispatcher.systems@[a as int].epoch < dispatcher.systems@[b as int].epoch
            ==> dispatcher.systems@[a as int].stage < dispatcher.systems@[b as int].stage,
        a != b && dispatcher.systems@[a as int].stage == dispatcher.systems@[b as int].stage
            ==> !conflict(
            dispatcher.systems@[a as int].reads,
            dispatcher.systems@[a as int].writes,
            dispatcher.systems@[b as int].reads,
            dispatcher.systems@[b as int].writes,
        ),
{
    let systems = dispatcher.systems@;
    assert(systems.len() == dispatcher.systems.len());
    lemma_stage_members(systems, systems[a as int].stage as int, systems.len() as int);
    let sa = systems[a as int];
    let sb = systems[b as int];
    if sb.dependencies@.contains(a) {
        let k = choose|k: int| 0 <= k < sb.dependencies@.len() && sb.dependencies@[k] == a;
        let d = systems[b as int].dependencies@[k];
        assert(d < b && systems[d as int].stage < systems[b as int].stage);
    }
    if a != b && sa.stage == sb.stage {
        if a < b {
            assert(!conflict(sa.reads, sa.writes, sb.reads, sb.writes));
        } else {
            assert(!conflict(sb.reads, sb.writes, sa.reads, sa.writes));
            lemma_conflict_symmetric(sa.reads, sa.writes, sb.reads, sb.writes);
        }
    }
}

/// The transforms, as a resource that systems read and write.
pub const TRANSFORMS: u64 = 1;

/// The rigid bodies, as a resource.
pub const RIGID_BODIES: u64 = 2;

/// The colliders, as a resource.
pub const COLLIDERS: u64 = 4;

/// The physics simulation and the handles of its bodies and colliders, as
/// a resource.
pub const PHYSICS: u64 = 8;

/// Number that [`frame_dispatcher`] gives the system that tells the
/// simulation of bodies.
pub const SYNC_BODIES_TO_PHYSICS: usize = 0;

/// Number of the system that tells the simulation of colliders.
pub const SYNC_COLLIDERS_TO_PHYSICS: usize = 1;

/// Number of the system that steps the simulation.
pub const PHYSICS_STEPPER: usize = 2;

/// Number of the system that brings the poses back.
pub const SYNC_BODIES_FROM_PHYSICS: usize = 3;

/// Number of the system that renews the model matrices.
pub const TRANSFORM_SYSTEM: usize = 4;

/// The dispatcher of a frame of the engine.
///
/// The simulation is told of the bodies, then of the colliders; then it
/// steps; then the poses come back into the transforms. Behind a barrier
/// the model matrices are renewed. The render system runs last, on the
/// dispatching thread. Each of these is a stage of its own, so a dispatch
/// takes them one after the other in exactly this order.
pub fn frame_dispatcher() -> (dispatcher: Dispatcher)
    ensures
        dispatcher.wf(),
        dispatcher.systems@.len() == 5,
        dispatcher.stage_count == 5,
        forall|i: int| 0 <= i < 5 ==> (#[trigger] dispatcher.systems@[i]).stage == i,
        dispatcher.systems@[TRANSFORM_SYSTEM as int].epoch == 1,
        forall|i: int| 0 <= i < 4 ==> (#[trigger] dispatcher.systems@[i]).epoch == 0,
        dispatcher.thread_local@.len() == 1,
{
    let mut builder = DispatcherBuilder::new();
    // Physics
    let bodies = builder.with(
        "sync_bodies_to_physics_system",
        TRANSFORMS | RIGID_BODIES,
        PHYSICS,
        Vec::new(),
    );
    proof {
        reveal_with_fuel(stage_after_conflicts, 2);
        reveal_with_fuel(stage_after_dependencies, 2);
    }
    assert(builder.systems@[0].stage == 0);
    let ghost one = builder.systems@;
    let mut after_bodies: Vec<usize> = Vec::new();
    after_bodies.push(bodies);
    let colliders = builder.with(
        "sync_colliders_to_physics_system",
        TRANSFORMS | COLLIDERS,
        PHYSICS,
        after_bodies,
    );
    assert(builder.systems@[0] == one[0]) by {
        assert(builder.systems@.subrange(0, 1)[0] == builder.systems@[0]);
    }
    assert(builder.systems@[1].stage == 1) by {
        reveal_with_fuel(stage_after_conflicts, 3);
        reveal_with_fuel(stage_after_dependencies, 3);
    }
    let ghost two = builder.systems@;
    let mut after_sync: Vec<usize> = Vec::new();
    after_sync.push(bodies);
    after_sync.push(colliders);
    let stepper = builder.with("physics_stepper", 0, PHYSICS, after_sync);
    assert(builder.systems@[0] == two[0] && builder.systems@[1] == two[1]) by {
        assert(builder.systems@.subrange(0, 2)[0] == builder.systems@[0]);
        assert(builder.systems@.subrange(0, 2)[1] == builder.systems@[1]);
    }
    assert(builder.systems@[2].stage == 2) by {
        reveal_with_fuel(stage_after_conflicts, 4);
        reveal_with_fuel(stage_after_dependencies, 4);
    }
    assert(builder.stage_count == 3);
    let ghost three = builder.systems@;
    let mut after_step: Vec<usize> = Vec::new();
    after_step.push(stepper);
    let _from = builder.with(
        "sync_bodies_from_physics_system",
        RIGID_BODIES | PHYSICS,
        TRANSFORMS,
        after_step,
    );
    assert(builder.systems@[0] == three[0] && builder.systems@[1] == three[1]
        && builder.systems@[2] == three[2]) by {
        assert(builder.systems@.subrange(0, 3)[0] == builder.systems@[0]);
        assert(builder.systems@.subrange(0, 3)[1] == builder.systems@[1]);
        assert(builder.systems@.subrange(0, 3)[2] == builder.systems@[2]);
    }
    assert(builder.systems@[3].stage == 3) by {
        reveal_with_fuel(stage_after_dependencies, 2);
        lemma_stage_bounds(three, RIGID_BODIES | PHYSICS, TRANSFORMS, 3);
    }
    assert(builder.stage_count == 4);
    let ghost four = builder.systems@;
    builder.with_barrier();
    let _transform = builder.with("transform_system", 0, TRANSFORMS, Vec::new());
    assert(builder.systems@[0] == four[0] && builder.systems@[1] == four[1]
        && builder.systems@[2] == four[2] && builder.systems@[3] == four[3]) by {
        assert(builder.systems@.subrange(0, 4)[0] == builder.systems@[0]);
        assert(builder.systems@.subrange(0, 4)[1] == builder.systems@[1]);
        assert(builder.systems@.subrange(0, 4)[2] == builder.systems@[2]);
        assert(builder.systems@.subrange(0, 4)[3] == builder.systems@[3]);
    }
    assert(builder.systems@[4].stage == 4) by {
        reveal_with_fuel(stage_after_dependencies, 1);
        lemma_stage_bounds(four, 0, TRANSFORMS, 4);
    }
    builder.with_thread_local("mesh_renderer_system");
    builder.build()
}

/// No stage behind conflicts lies further back than the stage behind the
/// last of the systems.
proof fn lemma_stage_bounds(systems: Seq<SystemInfo>, reads: u64, writes: u64, n: int)
    requires
        0 <= n <= systems.len(),
        forall|i: int| 0 <= i < n ==> (#[trigger] systems[i]).stage < n,
    ensures
        0 <= stage_after_conflicts(systems, reads, writes, n) <= n,
    decreases n,
{
    if n > 0 {
        assert forall|i: int| 0 <= i < n - 1 implies (#[trigger] systems[i]).stage < n by {
        }
        lemma_stage_bounds_weak(systems, reads, writes, n - 1, n);
    }
}

proof fn lemma_stage_bounds_weak(systems: Seq<SystemInfo>, reads: u64, writes: u64, n: int, bound: int)
    requires
        0 <= n <= systems.len(),
        0 <= bound,
        forall|i: int| 0 <= i < n ==> (#[trigger] systems[i]).stage < bound,
    ensures
        0 <= stage_after_conflicts(systems, reads, writes, n) <= bound,
    decreases n,
{
    if n > 0 {
        lemma_stage_bounds_weak(systems, reads, writes, n - 1, bound);
    }
}

} // verus!
