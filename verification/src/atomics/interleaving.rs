//! Threads racing for the lock, one step at a time.
//!
//! Each thread runs the same program over and over: take the lock, read a
//! shared counter, write it back one higher, give the lock up. A schedule picks
//! which thread moves next. The model shows what each policy allows: with a
//! sound policy no schedule loses an increment; with the other two, some do.

use vstd::prelude::*;
use crate::atomics::Policy;

verus! {

/// Where a thread stands in its program.
#[derive(Clone, Copy, PartialEq, Eq, Debug, Structural)]
pub enum Phase {
    /// Outside, about to try for the lock.
    Idle,
    /// Read the flag as unlocked and has not written it yet (naive policy).
    Observed,
    /// Inside, about to read the counter.
    Holding,
    /// Inside, with the counter's value read.
    Loaded(u64),
    /// Inside, with the counter written, about to give the lock up.
    Stored,
    /// Outside again, with the write to the counter still to become visible:
    /// the release overtook it (unfenced policy).
    Late(u64),
}

impl Phase {
    /// Whether the thread is inside the critical section.
    pub open spec fn inside(self) -> bool {
        self is Holding || self is Loaded || self is Stored
    }
}

/// How many of `phases` are inside the critical section.
pub open spec fn count_inside(phases: Seq<Phase>) -> nat
    decreases phases.len(),
{
    if phases.len() == 0 {
        0
    } else {
        count_inside(phases.drop_last()) + if phases.last().inside() {
            1nat
        } else {
            0nat
        }
    }
}

/// The count is at most the number of threads, and it is at least one
/// exactly when some thread is inside.
pub proof fn lemma_count_inside_some(phases: Seq<Phase>)
    ensures
        count_inside(phases) <= phases.len(),
        count_inside(phases) >= 1 <==> exists|i: int|
            0 <= i < phases.len() && (#[trigger] phases[i]).inside(),
    decreases phases.len(),
{
    if phases.len() > 0 {
        let front = phases.drop_last();
        lemma_count_inside_some(front);
        if count_inside(front) >= 1 {
            let i = choose|i: int| 0 <= i < front.len() && (#[trigger] front[i]).inside();
            assert(phases[i].inside());
        } else if phases.last().inside() {
            assert(phases[phases.len() - 1].inside());
        } else if exists|i: int| 0 <= i < phases.len() && (#[trigger] phases[i]).inside() {
            let i = choose|i: int| 0 <= i < phases.len() && (#[trigger] phases[i]).inside();
            assert(front[i].inside());
        }
    }
}

/// The count is at least two exactly when two threads are inside at once.
pub proof fn lemma_count_inside_two(phases: Seq<Phase>)
    ensures
        count_inside(phases) >= 2 <==> exists|i: int, j: int|
            0 <= i < j < phases.len() && phases[i].inside() && phases[j].inside(),
    decreases phases.len(),
{
    if phases.len() > 0 {
        let front = phases.drop_last();
        let last = phases.len() - 1;
        lemma_count_inside_two(front);
        lemma_count_inside_some(front);
        if count_inside(front) >= 2 {
            let (i, j) = choose|i: int, j: int|
                0 <= i < j < front.len() && front[i].inside() && front[j].inside();
            assert(phases[i].inside() && phases[j].inside());
        } else if count_inside(front) >= 1 && phases.last().inside() {
            let i = choose|i: int| 0 <= i < front.len() && (#[trigger] front[i]).inside();
            assert(phases[i].inside() && phases[last].inside());
        } else if exists|i: int, j: int|
            0 <= i < j < phases.len() && phases[i].inside() && phases[j].inside() {
            let (i, j) = choose|i: int, j: int|
                0 <= i < j < phases.len() && phases[i].inside() && phases[j].inside();
            assert(front[i].inside());
            if j < last {
                assert(front[j].inside());
            }
        }
    }
}

/// One move of a schedule: the thread that moves, and whether it lets its
/// release overtake its pending write where the policy does not forbid that.
pub struct Move {
    pub thread: usize,
    pub early: bool,
}

/// The racing threads and what they share, as a mathematical value.
pub struct Race {
    pub policy: Policy,
    /// The lock flag.
    pub flag: bool,
    /// The shared counter.
    pub counter: nat,
    /// How many runs of the critical section were completed.
    pub finished: nat,
    pub phases: Seq<Phase>,
}

impl Race {
    /// `threads` idle threads, the lock free, nothing counted.
    pub open spec fn start(policy: Policy, threads: nat) -> Race {
        Race { policy, flag: false, counter: 0, finished: 0, phases: Seq::new(threads, |i: int| Phase::Idle) }
    }

    /// The state after thread `t` made its next step.
    pub open spec fn step(self, t: int, early: bool) -> Race {
        if !(0 <= t < self.phases.len()) {
            self
        } else {
            match self.phases[t] {
                Phase::Idle => {
                    if self.flag {
                        self
                    } else if self.policy.spec_swaps() {
                        Race { flag: true, phases: self.phases.update(t, Phase::Holding), ..self }
                    } else {
                        Race { phases: self.phases.update(t, Phase::Observed), ..self }
                    }
                },
                Phase::Observed => Race {
                    flag: true,
                    phases: self.phases.update(t, Phase::Holding),
                    ..self
                },
                Phase::Holding => Race {
                    phases: self.phases.update(t, Phase::Loaded(self.counter as u64)),
                    ..self
                },
                Phase::Loaded(v) => {
                    if early && !self.policy.spec_fenced() {
                        Race { flag: false, phases: self.phases.update(t, Phase::Late(v)), ..self }
                    } else {
                        Race {
                            counter: (v + 1) as nat,
                            phases: self.phases.update(t, Phase::Stored),
                            ..self
                        }
                    }
                },
                Phase::Stored => Race {
                    flag: false,
                    finished: self.finished + 1,
                    phases: self.phases.update(t, Phase::Idle),
                    ..self
                },
                Phase::Late(v) => Race {
                    counter: (v + 1) as nat,
                    finished: self.finished + 1,
                    phases: self.phases.update(t, Phase::Idle),
                    ..self
                },
            }
        }
    }

    /// The state after the moves of `schedule`, in their order.
    pub open spec fn run(self, schedule: Seq<Move>) -> Race
        decreases schedule.len(),
    {
        if schedule.len() == 0 {
            self
        } else {
            self.run(schedule.drop_last()).step(schedule.last().thread as int, schedule.last().early)
        }
    }

    /// Whether two threads are inside the critical section at once.
    pub open spec fn two_inside(self) -> bool {
        exists|i: int, j: int|
            0 <= i < j < self.phases.len() && self.phases[i].inside() && self.phases[j].inside()
    }

    /// Whether every thread is outside, with nothing of it pending.
    pub open spec fn quiet(self) -> bool {
        forall|i: int| 0 <= i < self.phases.len() ==> #[trigger] self.phases[i] is Idle
    }

    /// What holds at every moment under a sound policy: at most one thread
    /// is inside, the flag is locked exactly while one is, and the counter
    /// is the number of completed runs, plus the one being completed.
    pub open spec fn exclusive(self) -> bool {
        &&& forall|i: int, j: int|
            0 <= i < self.phases.len() && 0 <= j < self.phases.len() && i != j ==> !(
            #[trigger] self.phases[i].inside() && #[trigger] self.phases[j].inside())
        &&& forall|i: int|
            0 <= i < self.phases.len() ==> (#[trigger] self.phases[i]).inside()
                || self.phases[i] is Idle
        &&& self.flag <==> exists|i: int|
            0 <= i < self.phases.len() && (#[trigger] self.phases[i]).inside()
        &&& forall|i: int|
            0 <= i < self.phases.len() ==> ((#[trigger] self.phases[i]) matches Phase::Loaded(v)
                ==> v == self.counter)
        &&& forall|i: int|
            0 <= i < self.phases.len() && (#[trigger] self.phases[i]) is Stored ==> self.counter
                == self.finished + 1
        &&& (forall|i: int| 0 <= i < self.phases.len() ==> !((#[trigger] self.phases[i]) is Stored))
            ==> self.counter == self.finished
    }
}

impl Race {
    /// Whether the counter, the count of completed runs and every value that
    /// a thread has read are at most `limit`.
    pub open spec fn below(self, limit: nat) -> bool {
        &&& self.counter <= limit
        &&& self.finished <= limit
        &&& forall|i: int|
            0 <= i < self.phases.len() ==> match #[trigger] self.phases[i] {
                Phase::Loaded(v) => v <= limit,
                Phase::Late(v) => v <= limit,
                _ => true,
            }
    }
}

/// A step raises no count by more than one.
pub proof fn lemma_step_below(w: Race, t: int, early: bool, limit: nat)
    requires
        w.below(limit),
        limit < u64::MAX,
    ensures
        w.step(t, early).below((limit + 1) as nat),
{
    let n = w.step(t, early);
    assert forall|i: int| 0 <= i < n.phases.len() implies match #[trigger] n.phases[i] {
        Phase::Loaded(v) => v <= limit + 1,
        Phase::Late(v) => v <= limit + 1,
        _ => true,
    } by {
        if 0 <= t < w.phases.len() {
            assert(w.phases[t] == w.phases[t]);
            if i != t {
                assert(n.phases[i] == w.phases[i]);
            }
        } else {
            assert(n.phases[i] == w.phases[i]);
        }
    }
    if 0 <= t < w.phases.len() {
        assert(match w.phases[t] {
            Phase::Loaded(v) => v <= limit,
            Phase::Late(v) => v <= limit,
            _ => true,
        });
    }
}

/// The racing threads, to be moved step by step.
pub struct Simulation {
    policy: Policy,
    flag: bool,
    counter: u64,
    finished: u64,
    phases: Vec<Phase>,
}

impl View for Simulation {
    type V = Race;

    closed spec fn view(&self) -> Race {
        Race {
            policy: self.policy,
            flag: self.flag,
            counter: self.counter as nat,
            finished: self.finished as nat,
            phases: self.phases@,
        }
    }
}

impl Simulation {
    /// `threads` idle threads, the lock free, nothing counted.
    pub fn new(policy: Policy, threads: usize) -> (r: Self)
        ensures
            r@ == Race::start(policy, threads as nat),
    {
        let mut phases: Vec<Phase> = Vec::new();
        let mut i: usize = 0;
        while i < threads
            invariant
                i <= threads,
                phases@.len() == i,
                forall|k: int| 0 <= k < i ==> phases@[k] == Phase::Idle,
            decreases threads - i,
        {
            phases.push(Phase::Idle);
            i += 1;
        }
        proof {
            assert(phases@ =~= Seq::new(threads as nat, |i: int| Phase::Idle));
        }
        Simulation { policy, flag: false, counter: 0, finished: 0, phases }
    }

    /// The shared counter.
    pub fn counter(&self) -> (r: u64)
        ensures
            r == self@.counter,
    {
        self.counter
    }

    /// How many runs of the critical section were completed.
    pub fn finished(&self) -> (r: u64)
        ensures
            r == self@.finished,
    {
        self.finished
    }

    /// Whether the lock flag is set.
    pub fn flag(&self) -> (r: bool)
        ensures
            r == self@.flag,
    {
        self.flag
    }

    /// The number of threads.
    pub fn threads(&self) -> (r: usize)
        ensures
            r == self@.phases.len(),
    {
        self.phases.len()
    }

    /// Where thread `t` stands.
    pub fn phase(&self, t: usize) -> (r: Phase)
        requires
            t < self@.phases.len(),
        ensures
            r == self@.phases[t as int],
    {
        self.phases[t]
    }

    /// How many threads are inside the critical section.
    pub fn inside(&self) -> (r: usize)
        ensures
            r == count_inside(self@.phases),
            r >= 2 <==> self@.two_inside(),
    {
        let mut count: usize = 0;
        let mut i: usize = 0;
        proof {
            assert(self.phases@.take(0) =~= Seq::<Phase>::empty());
        }
        while i < self.phases.len()
            invariant
                i <= self.phases@.len(),
                count <= i,
                count == count_inside(self.phases@.take(i as int)),
            decreases self.phases@.len() - i,
        {
            proof {
                assert(self.phases@.take(i + 1).drop_last() =~= self.phases@.take(i as int));
                assert(self.phases@.take(i + 1).last() == self.phases@[i as int]);
            }
            let inside = match self.phases[i] {
                Phase::Holding => true,
                Phase::Loaded(_) => true,
                Phase::Stored => true,
                _ => false,
            };
            if inside {
                count += 1;
            }
            i += 1;
        }
        proof {
            assert(self.phases@.take(self.phases@.len() as int) =~= self.phases@);
            let w = self@;
            assert(w.phases == self.phases@);
            lemma_count_inside_two(w.phases);
            if count >= 2 {
                let (i, j) = choose|i: int, j: int|
                    0 <= i < j < w.phases.len() && w.phases[i].inside() && w.phases[j].inside();
                assert(w.phases[i].inside() && w.phases[j].inside());
                assert(w.two_inside());
            }
            if w.two_inside() {
                let (i, j) = choose|i: int, j: int|
                    0 <= i < j < w.phases.len() && w.phases[i].inside() && w.phases[j].inside();
                assert(w.phases[i].inside() && w.phases[j].inside());
            }
        }
        count
    }

    /// Lets thread `thread` make its next step; `early` lets its release
    /// overtake its pending write where the policy does not forbid that. A
    /// thread that does not exist makes no step.
    pub fn step(&mut self, thread: usize, early: bool)
        requires
            exists|limit: nat| old(self)@.below(limit) && limit < u64::MAX,
        ensures
            final(self)@ == old(self)@.step(thread as int, early),
    {
        if thread >= self.phases.len() {
            return;
        }
        proof {
            let limit = choose|limit: nat| old(self)@.below(limit) && limit < u64::MAX;
            assert(match self.phases@[thread as int] {
                Phase::Loaded(v) => v <= limit,
                Phase::Late(v) => v <= limit,
                _ => true,
            });
        }
        match self.phases[thread] {
            Phase::Idle => {
                if !self.flag {
                    if self.policy.swaps() {
                        self.flag = true;
                        self.phases.set(thread, Phase::Holding);
                    } else {
                        self.phases.set(thread, Phase::Observed);
                    }
                }
            },
            Phase::Observed => {
                self.flag = true;
                self.phases.set(thread, Phase::Holding);
            },
            Phase::Holding => {
                let seen = self.counter;
                self.phases.set(thread, Phase::Loaded(seen));
            },
            Phase::Loaded(v) => {
                if early && !self.policy.fenced() {
                    self.flag = false;
                    self.phases.set(thread, Phase::Late(v));
                } else {
                    self.counter = v + 1;
                    self.phases.set(thread, Phase::Stored);
                }
            },
            Phase::Stored => {
                self.flag = false;
                self.finished = self.finished + 1;
                self.phases.set(thread, Phase::Idle);
            },
            Phase::Late(v) => {
                self.counter = v + 1;
                self.finished = self.finished + 1;
                self.phases.set(thread, Phase::Idle);
            },
        }
    }

    /// Makes the moves of `schedule`, in their order.
    pub fn run(&mut self, schedule: &Vec<Move>)
        requires
            exists|limit: nat| old(self)@.below(limit) && limit + schedule@.len() < u64::MAX,
        ensures
            final(self)@ == old(self)@.run(schedule@),
    {
        let ghost start = self@;
        let ghost limit = choose|limit: nat| start.below(limit) && limit + schedule@.len() < u64::MAX;
        let mut i: usize = 0;
        while i < schedule.len()
            invariant
                i <= schedule@.len(),
                self@ == start.run(schedule@.take(i as int)),
                self@.below((limit + i) as nat),
                limit + schedule@.len() < u64::MAX,
            decreases schedule@.len() - i,
        {
            proof {
                lemma_step_below(self@, schedule@[i as int].thread as int, schedule@[i as int].early, (limit + i) as nat);
                lemma_run_unfolds(start, schedule@, i + 1);
            }
            self.step(schedule[i].thread, schedule[i].early);
            i += 1;
        }
        proof {
            assert(schedule@.take(schedule@.len() as int) =~= schedule@);
        }
    }
}

/// A step under a sound policy keeps the lock exclusive and the count right.
pub proof fn lemma_step_keeps_exclusive(w: Race, t: int, early: bool)
    requires
        w.policy.spec_is_sound(),
        w.exclusive(),
        w.counter < u64::MAX,
    ensures
        w.step(t, early).exclusive(),
        w.step(t, early).policy == w.policy,
        w.step(t, early).phases.len() == w.phases.len(),
        w.step(t, early).counter <= w.counter + 1,
        w.step(t, early).counter == w.step(t, early).finished || w.step(t, early).counter
            == w.step(t, early).finished + 1,
{
    let n = w.step(t, early);
    if 0 <= t < w.phases.len() {
        match w.phases[t] {
            Phase::Idle => {
                if !w.flag {
                    assert(n.phases[t].inside());
                    assert forall|i: int, j: int|
                        0 <= i < n.phases.len() && 0 <= j < n.phases.len() && i != j implies !(
                    #[trigger] n.phases[i].inside() && #[trigger] n.phases[j].inside()) by {
                        if i != t {
                            assert(n.phases[i] == w.phases[i]);
                        }
                        if j != t {
                            assert(n.phases[j] == w.phases[j]);
                        }
                    }
                    assert forall|i: int| 0 <= i < n.phases.len() implies !((
                    #[trigger] n.phases[i]) is Stored) by {
                        if i != t {
                            assert(n.phases[i] == w.phases[i]);
                        }
                    }
                }
            },
            Phase::Holding => {
                assert(w.phases[t].inside());
                assert(n.phases[t].inside());
                assert forall|i: int| 0 <= i < n.phases.len() implies !((
                #[trigger] n.phases[i]) is Stored) by {
                    if i != t {
                        assert(n.phases[i] == w.phases[i]);
                        assert(!(w.phases[i].inside() && w.phases[t].inside()));
                    }
                }
                assert forall|i: int| 0 <= i < w.phases.len() implies !((
                #[trigger] w.phases[i]) is Stored) by {
                    if i != t {
                        assert(!(w.phases[i].inside() && w.phases[t].inside()));
                    }
                }
            },
            Phase::Loaded(v) => {
                assert(w.phases[t].inside());
                assert(n.phases[t].inside());
                assert(v == w.counter);
                assert forall|i: int| 0 <= i < w.phases.len() implies !((
                #[trigger] w.phases[i]) is Stored) by {
                    if i != t {
                        assert(!(w.phases[i].inside() && w.phases[t].inside()));
                    }
                }
                assert forall|i: int| 0 <= i < n.phases.len() implies ((
                #[trigger] n.phases[i]) matches Phase::Loaded(u) ==> u == n.counter) by {
                    if i != t {
                        assert(n.phases[i] == w.phases[i]);
                        assert(!(w.phases[i].inside() && w.phases[t].inside()));
                    }
                }
                assert(n.phases[t] is Stored);
            },
            Phase::Stored => {
                assert(w.phases[t].inside());
                assert forall|i: int| 0 <= i < n.phases.len() implies !(#[trigger] n.phases[i]).inside() by {
                    if i != t {
                        assert(n.phases[i] == w.phases[i]);
                        assert(!(w.phases[i].inside() && w.phases[t].inside()));
                    }
                }
            },
            _ => {
                assert(w.phases[t].inside() || w.phases[t] is Idle);
            },
        }
    }
}

/// Mutual exclusion, and no increment lost. Under a sound policy, whatever
/// the schedule: never are two threads inside at once, and whenever all
/// threads are outside the counter equals the number of completed runs.
pub proof fn lemma_sound_policy_counts_every_run(policy: Policy, threads: nat, schedule: Seq<Move>)
    requires
        policy.spec_is_sound(),
        schedule.len() < u64::MAX,
    ensures
        !Race::start(policy, threads).run(schedule).two_inside(),
        Race::start(policy, threads).run(schedule).quiet() ==> Race::start(policy, threads).run(
            schedule,
        ).counter == Race::start(policy, threads).run(schedule).finished,
{
    lemma_run_exclusive(policy, threads, schedule);
    let w = Race::start(policy, threads).run(schedule);
    if w.quiet() {
        assert forall|i: int| 0 <= i < w.phases.len() implies !((#[trigger] w.phases[i]) is Stored) by {
            assert(w.phases[i] is Idle);
        }
    }
}

proof fn lemma_run_exclusive(policy: Policy, threads: nat, schedule: Seq<Move>)
    requires
        policy.spec_is_sound(),
        schedule.len() < u64::MAX,
    ensures
        Race::start(policy, threads).run(schedule).exclusive(),
        Race::start(policy, threads).run(schedule).policy == policy,
        Race::start(policy, threads).run(schedule).counter <= schedule.len(),
    decreases schedule.len(),
{
    let w0 = Race::start(policy, threads);
    if schedule.len() == 0 {
        assert forall|i: int| 0 <= i < w0.phases.len() implies !(#[trigger] w0.phases[i]).inside() by {}
    } else {
        lemma_run_exclusive(policy, threads, schedule.drop_last());
        lemma_step_keeps_exclusive(
            w0.run(schedule.drop_last()),
            schedule.last().thread as int,
            schedule.last().early,
        );
    }
}

/// With the naive policy two threads can be inside at once, and an increment
/// can be lost: there is a schedule of two threads after which both have
/// completed a run and the counter stands at one.
pub proof fn lemma_naive_policy_loses_a_run() -> (schedule: Seq<Move>)
    ensures
        exists|k: int|
            0 <= k <= schedule.len() && Race::start(Policy::Naive, 2).run(
                #[trigger] schedule.take(k),
            ).two_inside(),
        Race::start(Policy::Naive, 2).run(schedule).quiet(),
        Race::start(Policy::Naive, 2).run(schedule).finished == 2,
        Race::start(Policy::Naive, 2).run(schedule).counter == 1,
{
    let a = Move { thread: 0, early: false };
    let b = Move { thread: 1, early: false };
    // both read the flag as unlocked, then both write it and enter
    let schedule = seq![a, b, a, b, a, b, a, b, a, b];
    let w0 = Race::start(Policy::Naive, 2);
    let w1 = w0.step(0, false);
    let w2 = w1.step(1, false);
    let w3 = w2.step(0, false);
    let w4 = w3.step(1, false);
    let w5 = w4.step(0, false);
    let w6 = w5.step(1, false);
    let w7 = w6.step(0, false);
    let w8 = w7.step(1, false);
    let w9 = w8.step(0, false);
    let w10 = w9.step(1, false);
    assert(w0.phases =~= seq![Phase::Idle, Phase::Idle]);
    assert(w1.phases =~= seq![Phase::Observed, Phase::Idle]);
    assert(w2.phases =~= seq![Phase::Observed, Phase::Observed]);
    assert(w3.phases =~= seq![Phase::Holding, Phase::Observed]);
    assert(w4.phases =~= seq![Phase::Holding, Phase::Holding]);
    assert(w5.phases =~= seq![Phase::Loaded(0), Phase::Holding]);
    assert(w6.phases =~= seq![Phase::Loaded(0), Phase::Loaded(0)]);
    assert(w7.phases =~= seq![Phase::Stored, Phase::Loaded(0)]);
    assert(w8.phases =~= seq![Phase::Stored, Phase::Stored]);
    assert(w9.phases =~= seq![Phase::Idle, Phase::Stored]);
    assert(w10.phases =~= seq![Phase::Idle, Phase::Idle]);
    lemma_run_unfolds(w0, schedule, 0);
    lemma_run_unfolds(w0, schedule, 1);
    assert(w0.run(schedule.take(1)) == w1);
    lemma_run_unfolds(w0, schedule, 2);
    assert(w0.run(schedule.take(2)) == w2);
    lemma_run_unfolds(w0, schedule, 3);
    assert(w0.run(schedule.take(3)) == w3);
    lemma_run_unfolds(w0, schedule, 4);
    assert(w0.run(schedule.take(4)) == w4);
    lemma_run_unfolds(w0, schedule, 5);
    assert(w0.run(schedule.take(5)) == w5);
    lemma_run_unfolds(w0, schedule, 6);
    assert(w0.run(schedule.take(6)) == w6);
    lemma_run_unfolds(w0, schedule, 7);
    assert(w0.run(schedule.take(7)) == w7);
    lemma_run_unfolds(w0, schedule, 8);
    assert(w0.run(schedule.take(8)) == w8);
    lemma_run_unfolds(w0, schedule, 9);
    assert(w0.run(schedule.take(9)) == w9);
    lemma_run_unfolds(w0, schedule, 10);
    assert(w0.run(schedule.take(10)) == w10);
    assert(schedule.take(10) =~= schedule);
    assert(w4.phases[0].inside() && w4.phases[1].inside());
    assert(w0.run(schedule.take(4)).two_inside());
    schedule
}

/// With compare-and-swap but relaxed ordering an increment can be lost too:
/// there is a schedule of two threads, in which one release overtakes the
/// write before it, after which both have completed a run and the counter
/// stands at one.
pub proof fn lemma_relaxed_policy_loses_a_run() -> (schedule: Seq<Move>)
    ensures
        Race::start(Policy::RelaxedCas, 2).run(schedule).quiet(),
        Race::start(Policy::RelaxedCas, 2).run(schedule).finished == 2,
        Race::start(Policy::RelaxedCas, 2).run(schedule).counter == 1,
{
    let a = Move { thread: 0, early: false };
    let a_early = Move { thread: 0, early: true };
    let b = Move { thread: 1, early: false };
    // the first thread reads the counter and lets go of the lock before its
    // write is out; the second runs in between
    let schedule = seq![a, a, a_early, b, b, b, b, a];
    let w0 = Race::start(Policy::RelaxedCas, 2);
    let w1 = w0.step(0, false);
    let w2 = w1.step(0, false);
    let w3 = w2.step(0, true);
    let w4 = w3.step(1, false);
    let w5 = w4.step(1, false);
    let w6 = w5.step(1, false);
    let w7 = w6.step(1, false);
    let w8 = w7.step(0, false);
    assert(w0.phases =~= seq![Phase::Idle, Phase::Idle]);
    assert(w1.phases =~= seq![Phase::Holding, Phase::Idle]);
    assert(w2.phases =~= seq![Phase::Loaded(0), Phase::Idle]);
    assert(w3.phases =~= seq![Phase::Late(0), Phase::Idle]);
    assert(w4.phases =~= seq![Phase::Late(0), Phase::Holding]);
    assert(w5.phases =~= seq![Phase::Late(0), Phase::Loaded(0)]);
    assert(w6.phases =~= seq![Phase::Late(0), Phase::Stored]);
    assert(w7.phases =~= seq![Phase::Late(0), Phase::Idle]);
    assert(w8.phases =~= seq![Phase::Idle, Phase::Idle]);
    lemma_run_unfolds(w0, schedule, 0);
    lemma_run_unfolds(w0, schedule, 1);
    assert(w0.run(schedule.take(1)) == w1);
    lemma_run_unfolds(w0, schedule, 2);
    assert(w0.run(schedule.take(2)) == w2);
    lemma_run_unfolds(w0, schedule, 3);
    assert(w0.run(schedule.take(3)) == w3);
    lemma_run_unfolds(w0, schedule, 4);
    assert(w0.run(schedule.take(4)) == w4);
    lemma_run_unfolds(w0, schedule, 5);
    assert(w0.run(schedule.take(5)) == w5);
    lemma_run_unfolds(w0, schedule, 6);
    assert(w0.run(schedule.take(6)) == w6);
    lemma_run_unfolds(w0, schedule, 7);
    assert(w0.run(schedule.take(7)) == w7);
    lemma_run_unfolds(w0, schedule, 8);
    assert(w0.run(schedule.take(8)) == w8);
    assert(schedule.take(8) =~= schedule);
    schedule
}

/// Running the first `k` moves of a schedule is running the first `k - 1` and
/// then making the move after them.
pub proof fn lemma_run_unfolds(w: Race, schedule: Seq<Move>, k: int)
    requires
        0 <= k <= schedule.len(),
    ensures
        k == 0 ==> w.run(schedule.take(k)) == w,
        k > 0 ==> w.run(schedule.take(k)) == w.run(schedule.take(k - 1)).step(
            schedule[k - 1].thread as int,
            schedule[k - 1].early,
        ),
{
    if k > 0 {
        assert(schedule.take(k).drop_last() =~= schedule.take(k - 1));
        assert(schedule.take(k).last() == schedule[k - 1]);
    }
}

} // verus!
