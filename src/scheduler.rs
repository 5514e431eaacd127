//! The two execution tiers: a task table with strict priority across tiers
//! and round-robin service within a tier, a periodic ticker with the
//! skip-missed-ticks policy, and a deterministic run of an Elevated-tier
//! ticking task beside a Normal-tier task that blocks its own tier.
use vstd::prelude::*;

verus! {

/// Instant of the release that follows one at `now`: a full period later,
/// or the last representable instant when that lies beyond it.
pub open spec fn release_after(now: int, period: int) -> int {
    if now + period <= u64::MAX {
        now + period
    } else {
        u64::MAX as int
    }
}

/// Periodic release source with a minimum period. A release that comes late
/// collapses all the missed periods into one immediate release, and the next
/// release comes a full period after it: there is no catch-up burst.
pub struct Ticker {
    period: u64,
    deadline: u64,
}

impl Ticker {
    /// Fixed nominal period.
    pub closed spec fn period_spec(&self) -> nat {
        self.period as nat
    }

    /// Instant of the next release.
    pub closed spec fn deadline_spec(&self) -> nat {
        self.deadline as nat
    }

    /// A ticker started at `start`, first released one period later.
    pub fn new(start: u64, period: u64) -> (r: Ticker)
        requires
            period > 0,
        ensures
            r.period_spec() == period,
            r.deadline_spec() == release_after(start as int, period as int),
    {
        let deadline = if period <= u64::MAX - start {
            start + period
        } else {
            u64::MAX
        };
        Ticker { period, deadline }
    }

    /// Instant of the next release.
    pub fn deadline(&self) -> (r: u64)
        ensures
            r == self.deadline_spec(),
    {
        self.deadline
    }

    /// Asks at instant `now` whether the ticker releases: it does once the
    /// deadline has come, however late. The next release is then one full
    /// period after `now`, so missed ticks are not caught up.
    pub fn poll(&mut self, now: u64) -> (r: bool)
        ensures
            final(self).period_spec() == old(self).period_spec(),
            r == (now >= old(self).deadline_spec()),
            r ==> final(self).deadline_spec() == release_after(
                now as int,
                old(self).period_spec() as int,
            ),
            !r ==> final(self).deadline_spec() == old(self).deadline_spec(),
    {
        if now < self.deadline {
            return false;
        }
        self.deadline = if self.period <= u64::MAX - now {
            now + self.period
        } else {
            u64::MAX
        };
        true
    }
}

/// Ticks counted during one run of the two tiers.
#[derive(Clone, Copy, Debug, PartialEq, Eq, Structural)]
pub struct TierRun {
    /// Releases of the Elevated-tier ticking task.
    pub elevated_ticks: u64,
    /// Releases of a well-behaved Normal-tier sibling of the blocking task.
    pub normal_ticks: u64,
}

/// Task table during a block: the blocking Normal task (id 0) is running,
/// its Normal sibling (id 1) is ready, the Elevated task (id 2) waits for
/// its timer.
pub open spec fn blocked_table() -> Seq<Task> {
    seq![
        Task { tier: Tier::Normal, state: TaskState::Running },
        Task { tier: Tier::Normal, state: TaskState::Ready },
        Task { tier: Tier::Elevated, state: TaskState::Suspended },
    ]
}

proof fn lemma_quotient(k: int, p: int, t: int)
    requires
        p > 0,
        k >= 0,
        t >= 0,
        t < (k + 1) * p,
    ensures
        t / p <= k,
        k * p <= t ==> t / p == k,
{
    assert(t / p <= k) by (nonlinear_arith)
        requires
            p > 0,
            t >= 0,
            t < (k + 1) * p,
    ;
    if k * p <= t {
        assert(t / p == k) by (nonlinear_arith)
            requires
                p > 0,
                k * p <= t,
                t < (k + 1) * p,
        ;
    }
}

/// Runs, instant by instant over `1..=block`, three tasks through the
/// scheduler: a Normal task that holds its tier without suspending for the
/// whole interval, a well-behaved Normal sibling released by its own ticker,
/// and an Elevated task released by its timer, every `period` each. At each
/// release the released task asks for dispatch. The Elevated task is
/// dispatched at every one of its releases, whatever the Normal tier does;
/// the sibling never gets its tier.
pub fn run_tiers(period: u64, block: u64) -> (r: TierRun)
    requires
        period > 0,
    ensures
        r.elevated_ticks >= block / period,
        block + period <= u64::MAX ==> r.elevated_ticks == block / period,
        r.normal_ticks == 0,
{
    let mut sched = Scheduler::new(2, 1);
    let blocker = match sched.spawn(Tier::Normal) {
        Ok(id) => id,
        Err(_) => {
            return TierRun { elevated_ticks: 0, normal_ticks: 0 };
        },
    };
    assert(sched.tasks_spec() =~= seq![Task { tier: Tier::Normal, state: TaskState::Ready }]);
    assert(count_tier(sched.tasks_spec(), Tier::Normal) == 1) by {
        assert(sched.tasks_spec().drop_last() =~= Seq::<Task>::empty());
    }
    let sibling = match sched.spawn(Tier::Normal) {
        Ok(id) => id,
        Err(_) => {
            return TierRun { elevated_ticks: 0, normal_ticks: 0 };
        },
    };
    let ghost two = sched.tasks_spec();
    assert(count_tier(two, Tier::Elevated) == 0) by {
        let n = Task { tier: Tier::Normal, state: TaskState::Ready };
        assert(two =~= seq![n, n]);
        assert(two.drop_last() =~= seq![n]);
        assert(two.drop_last().drop_last() =~= Seq::<Task>::empty());
        assert(count_tier(two.drop_last(), Tier::Elevated) == 0);
    }
    let task = match sched.spawn(Tier::Elevated) {
        Ok(id) => id,
        Err(_) => {
            return TierRun { elevated_ticks: 0, normal_ticks: 0 };
        },
    };
    let ghost ready3 = sched.tasks_spec();
    assert(blocker == 0 && sibling == 1 && task == 2);
    assert(ready3[2].tier == Tier::Elevated && ready3[2].state == TaskState::Ready);
    assert(ready_in(ready3, Tier::Elevated, 2));
    assert(!tier_running(ready3, Tier::Elevated));
    // the Elevated task starts, then waits for its first timer release
    let first = sched.dispatch();
    assert(first == Some(task));
    sched.suspend(task);
    let ghost waiting = sched.tasks_spec();
    assert(!tier_ready(waiting, Tier::Elevated));
    assert(!tier_running(waiting, Tier::Elevated));
    assert(!tier_running(waiting, Tier::Normal));
    assert(ready_in(waiting, Tier::Normal, 0));
    assert(sched.next_of(Tier::Normal) == 0);
    assert(ready_in(waiting, Tier::Normal, circle(3, 0, 0)));
    // the blocking task takes the Normal tier
    let second = sched.dispatch();
    assert(second == Some(blocker));
    assert(sched.tasks_spec() =~= blocked_table());

    let mut elevated = Ticker::new(0, period);
    let mut normal = Ticker::new(0, period);
    let mut elevated_ticks: u64 = 0;
    let mut normal_ticks: u64 = 0;
    let mut t: u64 = 0;
    while t < block
        invariant
            period > 0,
            t <= block,
            sched.wf(),
            sched.tasks_spec() == blocked_table(),
            elevated.period_spec() == period,
            normal.period_spec() == period,
            elevated.deadline_spec() == release_after(elevated_ticks * period, period as int),
            t < (elevated_ticks + 1) * period,
            elevated_ticks >= (t as int) / (period as int),
            block + period <= u64::MAX ==> elevated_ticks * period <= t,
            elevated_ticks <= t,
            normal_ticks == 0,
        decreases block - t,
    {
        let now: u64 = t + 1;
        let ghost k = elevated_ticks as int;
        let ghost p = period as int;
        assert((k + 1) * p == k * p + p) by (nonlinear_arith);
        if elevated.poll(now) {
            // the timer interrupt readies the Elevated task, which preempts
            sched.wake(2);
            let ghost woken = sched.tasks_spec();
            assert(ready_in(woken, Tier::Elevated, 2));
            assert(!tier_running(woken, Tier::Elevated));
            match sched.dispatch() {
                Some(id) => {
                    assert(id == 2);
                    elevated_ticks = elevated_ticks + 1;
                    sched.suspend(id);
                    assert(sched.tasks_spec() =~= blocked_table());
                },
                None => {},
            }
            proof {
                if (k + 1) * p <= u64::MAX {
                    assert(now == (k + 1) * p);
                    assert((k + 1) * p + p == (k + 2) * p) by (nonlinear_arith);
                    assert(k + 1 <= (k + 1) * p) by (nonlinear_arith)
                        requires
                            p > 0,
                            k >= 0,
                    ;
                    lemma_quotient(k + 1, p, now as int);
                } else {
                    assert(now == u64::MAX);
                    assert((k + 2) * p == (k + 1) * p + p) by (nonlinear_arith);
                    lemma_quotient(k, p, now as int);
                }
            }
        } else {
            proof {
                lemma_quotient(k, p, now as int);
            }
        }
        // the sibling's timer readies it, but the Normal tier stays taken
        if normal.poll(now) {
            let ghost tbl = sched.tasks_spec();
            assert(tbl[0].tier == Tier::Normal && tbl[0].state == TaskState::Running);
            assert(tier_running(tbl, Tier::Normal));
            assert(!tier_ready(tbl, Tier::Elevated));
            assert(!tier_running(tbl, Tier::Elevated));
            match sched.dispatch() {
                Some(id) => {
                    normal_ticks = normal_ticks + 1;
                    sched.yield_now(id);
                },
                None => {},
            }
        }
        t = now;
    }
    proof {
        lemma_quotient(elevated_ticks as int, period as int, block as int);
    }
    TierRun { elevated_ticks, normal_ticks }
}

/// When the Normal tier is held for longer than one period, the lower bound
/// `floor(block / period)` that `run_tiers` guarantees for the Elevated-tier
/// ticks is at least one: the Elevated task is never starved.
pub proof fn lemma_elevated_independent(period: nat, block: nat)
    requires
        period > 0,
        block > period,
    ensures
        block / period >= 1,
{
    assert(block / period >= 1) by (nonlinear_arith)
        requires
            period > 0,
            block > period,
    ;
}

/// Execution tier of a task. Elevated work always runs before Normal work.
#[derive(Clone, Copy, Debug, PartialEq, Eq, Structural)]
pub enum Tier {
    Normal,
    Elevated,
}

/// Run state of a task.
#[derive(Clone, Copy, Debug, PartialEq, Eq, Structural)]
pub enum TaskState {
    Ready,
    Running,
    Suspended,
    Terminated,
}

/// A spawned task: its tier and its current state.
#[derive(Clone, Copy, Debug, PartialEq, Eq, Structural)]
pub struct Task {
    pub tier: Tier,
    pub state: TaskState,
}

/// Why a spawn was refused.
#[derive(Clone, Copy, Debug, PartialEq, Eq, Structural)]
pub enum SpawnError {
    /// The tier already holds as many tasks as it has slots.
    CapacityExceeded,
}

/// Number of tasks of `tier` in `tasks`.
pub open spec fn count_tier(tasks: Seq<Task>, tier: Tier) -> nat
    decreases tasks.len(),
{
    if tasks.len() == 0 {
        0
    } else {
        count_tier(tasks.drop_last(), tier) + if tasks.last().tier == tier {
            1nat
        } else {
            0nat
        }
    }
}

/// Whether task `i` is of `tier` and ready to run.
pub open spec fn ready_in(tasks: Seq<Task>, tier: Tier, i: int) -> bool {
    tasks[i].tier == tier && tasks[i].state == TaskState::Ready
}

/// Whether some task of `tier` is running: the tier is then taken until
/// that task reaches a suspension point.
pub open spec fn tier_running(tasks: Seq<Task>, tier: Tier) -> bool {
    exists|i: int|
        0 <= i < tasks.len() && #[trigger] tasks[i].tier == tier && tasks[i].state
            == TaskState::Running
}

/// Whether some task of `tier` is ready.
pub open spec fn tier_ready(tasks: Seq<Task>, tier: Tier) -> bool {
    exists|i: int| 0 <= i < tasks.len() && #[trigger] ready_in(tasks, tier, i)
}

/// Index reached `d` steps after `start` when walking `n` slots in a circle,
/// for `start <= n` and `d < n`.
pub open spec fn circle(n: int, start: int, d: int) -> int {
    if start + d < n {
        start + d
    } else {
        start + d - n
    }
}

/// Steps from `start` to `i` walking `n` slots in a circle.
pub open spec fn circle_dist(n: int, start: int, i: int) -> int {
    if i >= start {
        i - start
    } else {
        i + n - start
    }
}

/// The task table of a two-tier scheduler, with a fixed number of task slots
/// per tier and a round-robin position per tier.
pub struct Scheduler {
    tasks: Vec<Task>,
    normal_slots: usize,
    elevated_slots: usize,
    normal_count: usize,
    elevated_count: usize,
    normal_next: usize,
    elevated_next: usize,
}

impl Scheduler {
    /// The spawned tasks, by task id.
    pub closed spec fn tasks_spec(&self) -> Seq<Task> {
        self.tasks@
    }

    /// Task slots of `tier`.
    pub closed spec fn slots(&self, tier: Tier) -> nat {
        match tier {
            Tier::Normal => self.normal_slots as nat,
            Tier::Elevated => self.elevated_slots as nat,
        }
    }

    /// Where the round-robin search of `tier` starts.
    pub closed spec fn next_of(&self, tier: Tier) -> nat {
        match tier {
            Tier::Normal => self.normal_next as nat,
            Tier::Elevated => self.elevated_next as nat,
        }
    }

    pub closed spec fn wf(&self) -> bool {
        &&& self.normal_count == count_tier(self.tasks@, Tier::Normal)
        &&& self.elevated_count == count_tier(self.tasks@, Tier::Elevated)
        &&& self.normal_count <= self.normal_slots
        &&& self.elevated_count <= self.elevated_slots
        &&& self.tasks@.len() == self.normal_count + self.elevated_count
        &&& self.normal_next <= self.tasks@.len()
        &&& self.elevated_next <= self.tasks@.len()
    }

    /// An empty scheduler with the given number of slots per tier.
    pub fn new(normal_slots: usize, elevated_slots: usize) -> (r: Scheduler)
        requires
            normal_slots + elevated_slots <= usize::MAX,
        ensures
            r.wf(),
            r.tasks_spec() == Seq::<Task>::empty(),
            r.next_of(Tier::Normal) == 0,
            r.next_of(Tier::Elevated) == 0,
            r.slots(Tier::Normal) == normal_slots,
            r.slots(Tier::Elevated) == elevated_slots,
    {
        Scheduler {
            tasks: Vec::new(),
            normal_slots,
            elevated_slots,
            normal_count: 0,
            elevated_count: 0,
            normal_next: 0,
            elevated_next: 0,
        }
    }

    /// Number of spawned tasks.
    pub fn len(&self) -> (r: usize)
        ensures
            r == self.tasks_spec().len(),
    {
        self.tasks.len()
    }

    /// The task with id `id`.
    pub fn task(&self, id: usize) -> (r: Task)
        requires
            id < self.tasks_spec().len(),
        ensures
            r == self.tasks_spec()[id as int],
    {
        self.tasks[id]
    }

    proof fn lemma_count_push(tasks: Seq<Task>, t: Task, tier: Tier)
        ensures
            count_tier(tasks.push(t), tier) == count_tier(tasks, tier) + if t.tier == tier {
                1nat
            } else {
                0nat
            },
    {
        assert(tasks.push(t).drop_last() =~= tasks);
    }

    proof fn lemma_count_update(tasks: Seq<Task>, i: int, t: Task, tier: Tier)
        requires
            0 <= i < tasks.len(),
            t.tier == tasks[i].tier,
        ensures
            count_tier(tasks.update(i, t), tier) == count_tier(tasks, tier),
        decreases tasks.len(),
    {
        if i < tasks.len() - 1 {
            Self::lemma_count_update(tasks.drop_last(), i, t, tier);
            assert(tasks.update(i, t).drop_last() =~= tasks.drop_last().update(i, t));
        } else {
            assert(tasks.update(i, t).drop_last() =~= tasks.drop_last());
        }
    }

    /// Registers a new ready task in `tier`. Fails, changing nothing, when the
    /// tier's slots are all taken; otherwise the task gets the next id.
    pub fn spawn(&mut self, tier: Tier) -> (r: Result<usize, SpawnError>)
        requires
            old(self).wf(),
        ensures
            final(self).wf(),
            final(self).slots(Tier::Normal) == old(self).slots(Tier::Normal),
            final(self).slots(Tier::Elevated) == old(self).slots(Tier::Elevated),
            final(self).next_of(Tier::Normal) == old(self).next_of(Tier::Normal),
            final(self).next_of(Tier::Elevated) == old(self).next_of(Tier::Elevated),
            r is Err <==> count_tier(old(self).tasks_spec(), tier) >= old(self).slots(tier),
            r is Err ==> r == Err::<usize, SpawnError>(SpawnError::CapacityExceeded)
                && final(self).tasks_spec() == old(self).tasks_spec(),
            r matches Ok(id) ==> id == old(self).tasks_spec().len() && final(self).tasks_spec()
                == old(self).tasks_spec().push(Task { tier, state: TaskState::Ready }),
    {
        let t = Task { tier, state: TaskState::Ready };
        proof {
            Self::lemma_count_push(self.tasks@, t, Tier::Normal);
            Self::lemma_count_push(self.tasks@, t, Tier::Elevated);
        }
        match tier {
            Tier::Normal => {
                if self.normal_count >= self.normal_slots {
                    return Err(SpawnError::CapacityExceeded);
                }
                self.normal_count = self.normal_count + 1;
            },
            Tier::Elevated => {
                if self.elevated_count >= self.elevated_slots {
                    return Err(SpawnError::CapacityExceeded);
                }
                self.elevated_count = self.elevated_count + 1;
            },
        }
        let id = self.tasks.len();
        self.tasks.push(t);
        Ok(id)
    }

    /// Sets the state of task `id`, unless it has terminated.
    fn set_state(&mut self, id: usize, from: TaskState, to: TaskState)
        requires
            old(self).wf(),
            id < old(self).tasks_spec().len(),
        ensures
            final(self).wf(),
            final(self).slots(Tier::Normal) == old(self).slots(Tier::Normal),
            final(self).slots(Tier::Elevated) == old(self).slots(Tier::Elevated),
            final(self).next_of(Tier::Normal) == old(self).next_of(Tier::Normal),
            final(self).next_of(Tier::Elevated) == old(self).next_of(Tier::Elevated),
            final(self).tasks_spec() == if old(self).tasks_spec()[id as int].state == from {
                old(self).tasks_spec().update(
                    id as int,
                    Task { tier: old(self).tasks_spec()[id as int].tier, state: to },
                )
            } else {
                old(self).tasks_spec()
            },
    {
        let cur = self.tasks[id];
        if cur.state == from {
            let t = Task { tier: cur.tier, state: to };
            proof {
                Self::lemma_count_update(self.tasks@, id as int, t, Tier::Normal);
                Self::lemma_count_update(self.tasks@, id as int, t, Tier::Elevated);
            }
            self.tasks.set(id, t);
        }
    }

    /// A running task reaches a suspension point and waits for an event.
    pub fn suspend(&mut self, id: usize)
        requires
            old(self).wf(),
            id < old(self).tasks_spec().len(),
        ensures
            final(self).wf(),
            final(self).next_of(Tier::Normal) == old(self).next_of(Tier::Normal),
            final(self).next_of(Tier::Elevated) == old(self).next_of(Tier::Elevated),
            final(self).tasks_spec() == if old(self).tasks_spec()[id as int].state
                == TaskState::Running {
                old(self).tasks_spec().update(
                    id as int,
                    Task {
                        tier: old(self).tasks_spec()[id as int].tier,
                        state: TaskState::Suspended,
                    },
                )
            } else {
                old(self).tasks_spec()
            },
    {
        self.set_state(id, TaskState::Running, TaskState::Suspended);
    }

    /// The event a suspended task waits for has come: it is ready again.
    pub fn wake(&mut self, id: usize)
        requires
            old(self).wf(),
            id < old(self).tasks_spec().len(),
        ensures
            final(self).wf(),
            final(self).next_of(Tier::Normal) == old(self).next_of(Tier::Normal),
            final(self).next_of(Tier::Elevated) == old(self).next_of(Tier::Elevated),
            final(self).tasks_spec() == if old(self).tasks_spec()[id as int].state
                == TaskState::Suspended {
                old(self).tasks_spec().update(
                    id as int,
                    Task {
                        tier: old(self).tasks_spec()[id as int].tier,
                        state: TaskState::Ready,
                    },
                )
            } else {
                old(self).tasks_spec()
            },
    {
        self.set_state(id, TaskState::Suspended, TaskState::Ready);
    }

    /// A running task faulted: it stops for good; nothing restarts it.
    pub fn terminate(&mut self, id: usize)
        requires
            old(self).wf(),
            id < old(self).tasks_spec().len(),
        ensures
            final(self).wf(),
            final(self).next_of(Tier::Normal) == old(self).next_of(Tier::Normal),
            final(self).next_of(Tier::Elevated) == old(self).next_of(Tier::Elevated),
            final(self).tasks_spec() == if old(self).tasks_spec()[id as int].state
                == TaskState::Running {
                old(self).tasks_spec().update(
                    id as int,
                    Task {
                        tier: old(self).tasks_spec()[id as int].tier,
                        state: TaskState::Terminated,
                    },
                )
            } else {
                old(self).tasks_spec()
            },
    {
        self.set_state(id, TaskState::Running, TaskState::Terminated);
    }

    /// Whether a task of `tier` is running.
    fn tier_busy(&self, tier: Tier) -> (r: bool)
        ensures
            r == tier_running(self.tasks@, tier),
    {
        let n = self.tasks.len();
        let mut i: usize = 0;
        while i < n
            invariant
                n == self.tasks@.len(),
                i <= n,
                forall|k: int|
                    0 <= k < i ==> !(#[trigger] self.tasks@[k].tier == tier && self.tasks@[k].state
                        == TaskState::Running),
            decreases n - i,
        {
            let t = self.tasks[i];
            if t.tier == tier && t.state == TaskState::Running {
                return true;
            }
            i = i + 1;
        }
        false
    }

    /// First ready task of `tier` in circular order from `start`.
    fn find_ready(&self, tier: Tier, start: usize) -> (r: Option<usize>)
        requires
            start <= self.tasks@.len(),
        ensures
            r is None ==> forall|i: int|
                0 <= i < self.tasks@.len() ==> !ready_in(self.tasks@, tier, i),
            r matches Some(id) ==> id < self.tasks@.len() && ready_in(self.tasks@, tier, id as int)
                && forall|d: int|
                0 <= d < circle_dist(self.tasks@.len() as int, start as int, id as int)
                    ==> !ready_in(
                    self.tasks@,
                    tier,
                    circle(self.tasks@.len() as int, start as int, d),
                ),
    {
        let n = self.tasks.len();
        let mut d: usize = 0;
        while d < n
            invariant
                n == self.tasks@.len(),
                start <= n,
                d <= n,
                forall|e: int|
                    0 <= e < d ==> !ready_in(self.tasks@, tier, #[trigger] circle(
                        n as int,
                        start as int,
                        e,
                    )),
            decreases n - d,
        {
            let idx: usize = if d < n - start {
                start + d
            } else {
                d - (n - start)
            };
            let t = self.tasks[idx];
            if t.tier == tier && t.state == TaskState::Ready {
                return Some(idx);
            }
            d = d + 1;
        }
        proof {
            assert forall|i: int| 0 <= i < n implies !ready_in(self.tasks@, tier, i) by {
                let e = circle_dist(n as int, start as int, i);
                assert(circle(n as int, start as int, e) == i);
            }
        }
        None
    }

    /// Picks the task to run next, or none. A tier runs one task at a time,
    /// and an Elevated task runs before any Normal work: an Elevated task is
    /// picked when no Elevated task is running (it preempts the Normal
    /// tier), a Normal task only when no task of either tier is running and
    /// none of the Elevated tier is ready. Within the tier, the first ready
    /// task in circular order from that tier's round-robin position is
    /// picked, and the position moves just past it. The chosen task becomes
    /// running.
    pub fn dispatch(&mut self) -> (r: Option<usize>)
        requires
            old(self).wf(),
        ensures
            final(self).wf(),
            ({
                let tasks = old(self).tasks_spec();
                r is None <==> tier_running(tasks, Tier::Elevated) || (!tier_ready(
                    tasks,
                    Tier::Elevated,
                ) && (tier_running(tasks, Tier::Normal) || !tier_ready(tasks, Tier::Normal)))
            }),
            r is None ==> final(self).tasks_spec() == old(self).tasks_spec(),
            r matches Some(id) ==> {
                let tasks = old(self).tasks_spec();
                let tier = tasks[id as int].tier;
                &&& id < tasks.len()
                &&& tasks[id as int].state == TaskState::Ready
                &&& final(self).tasks_spec() == tasks.update(
                    id as int,
                    Task { tier, state: TaskState::Running },
                )
                &&& !tier_running(tasks, Tier::Elevated)
                &&& tier == Tier::Normal ==> !tier_ready(tasks, Tier::Elevated) && !tier_running(
                    tasks,
                    Tier::Normal,
                )
                &&& forall|d: int|
                    0 <= d < circle_dist(tasks.len() as int, old(self).next_of(tier) as int, id as int)
                        ==> !ready_in(
                        tasks,
                        tier,
                        circle(tasks.len() as int, old(self).next_of(tier) as int, d),
                    )
                &&& final(self).next_of(tier) == id + 1
                &&& tier == Tier::Normal ==> final(self).next_of(Tier::Elevated) == old(
                    self,
                ).next_of(Tier::Elevated)
                &&& tier == Tier::Elevated ==> final(self).next_of(Tier::Normal) == old(
                    self,
                ).next_of(Tier::Normal)
            },
    {
        if self.tier_busy(Tier::Elevated) {
            return None;
        }
        let picked = match self.find_ready(Tier::Elevated, self.elevated_next) {
            Some(id) => Some(id),
            None => {
                if self.tier_busy(Tier::Normal) {
                    None
                } else {
                    self.find_ready(Tier::Normal, self.normal_next)
                }
            },
        };
        match picked {
            Some(id) => {
                let cur = self.tasks[id];
                let n = self.tasks.len();
                self.set_state(id, TaskState::Ready, TaskState::Running);
                assert(id < n);
                match cur.tier {
                    Tier::Normal => {
                        self.normal_next = id + 1;
                    },
                    Tier::Elevated => {
                        self.elevated_next = id + 1;
                    },
                }
                Some(id)
            },
            None => None,
        }
    }

    /// A running task reaches a suspension point at which it can go on at
    /// once: it goes back to ready and waits for its turn.
    pub fn yield_now(&mut self, id: usize)
        requires
            old(self).wf(),
            id < old(self).tasks_spec().len(),
        ensures
            final(self).wf(),
            final(self).next_of(Tier::Normal) == old(self).next_of(Tier::Normal),
            final(self).next_of(Tier::Elevated) == old(self).next_of(Tier::Elevated),
            final(self).tasks_spec() == if old(self).tasks_spec()[id as int].state
                == TaskState::Running {
                old(self).tasks_spec().update(
                    id as int,
                    Task { tier: old(self).tasks_spec()[id as int].tier, state: TaskState::Ready },
                )
            } else {
                old(self).tasks_spec()
            },
    {
        self.set_state(id, TaskState::Running, TaskState::Ready);
    }
}

} // verus!
