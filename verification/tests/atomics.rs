use handrolled::atomics::flag::ordering;
use handrolled::atomics::flag::SpinFlag;
use handrolled::atomics::interleaving::Move;
use std::sync::atomic::Ordering;
use handrolled::atomics::interleaving::Phase;
use handrolled::atomics::interleaving::Simulation;
use handrolled::atomics::next_attempt;
use handrolled::atomics::Attempt;
use handrolled::atomics::MemOrder;
use handrolled::atomics::MyMutex;
use handrolled::atomics::Policy;

#[test]
fn new_mutex_is_unlocked() {
    let m = MyMutex::new(5);
    assert!(!m.locked());
}

#[test]
fn with_lock_returns_what_the_closure_returns() {
    let mut m = MyMutex::new(41);
    let r = m.with_lock(|v| {
        *v += 1;
        *v * 2
    });
    assert_eq!(r, 84);
    assert_eq!(m.with_lock(|v| *v), 42);
    assert!(!m.locked());
}

#[test]
fn every_increment_counts() {
    let mut l = MyMutex::new(0);
    for _ in 0..100 {
        for _ in 0..1000 {
            l.with_lock(|v| {
                *v += 1;
            })
        }
    }
    assert_eq!(l.with_lock(|v| *v), 100 * 1000);
}

#[test]
fn only_the_first_attempt_wins() {
    let mut m = MyMutex::new("x");
    assert!(m.try_acquire());
    assert!(m.locked());
    assert!(!m.try_acquire());
    assert!(!m.try_acquire());
    assert!(m.locked());
    m.release();
    assert!(!m.locked());
    assert!(m.try_acquire());
}

#[test]
fn only_acquire_release_is_sound() {
    assert!(!Policy::Naive.is_sound());
    assert!(!Policy::RelaxedCas.is_sound());
    assert!(Policy::AcquireRelease.is_sound());
    assert!(!Policy::Naive.swaps());
    assert!(Policy::RelaxedCas.swaps());
    assert!(Policy::AcquireRelease.swaps());
}

#[test]
fn orderings_of_each_policy() {
    assert_eq!(Policy::Naive.acquire_order(), MemOrder::Relaxed);
    assert_eq!(Policy::Naive.release_order(), MemOrder::Relaxed);
    assert_eq!(Policy::RelaxedCas.acquire_order(), MemOrder::Relaxed);
    assert_eq!(Policy::RelaxedCas.release_order(), MemOrder::Relaxed);
    assert_eq!(Policy::AcquireRelease.acquire_order(), MemOrder::Acquire);
    assert_eq!(Policy::AcquireRelease.release_order(), MemOrder::Release);
}

#[test]
fn what_follows_a_look_at_the_flag() {
    assert_eq!(next_attempt(Policy::Naive, false), Attempt::Retry);
    assert_eq!(next_attempt(Policy::Naive, true), Attempt::Take);
    assert_eq!(next_attempt(Policy::RelaxedCas, false), Attempt::Retry);
    assert_eq!(next_attempt(Policy::RelaxedCas, true), Attempt::Enter);
    assert_eq!(next_attempt(Policy::AcquireRelease, false), Attempt::Retry);
    assert_eq!(next_attempt(Policy::AcquireRelease, true), Attempt::Enter);
}

fn mv(thread: usize) -> Move {
    Move { thread, early: false }
}

#[test]
fn one_thread_runs_its_section() {
    let mut sim = Simulation::new(Policy::AcquireRelease, 1);
    assert_eq!(sim.threads(), 1);
    assert_eq!(sim.phase(0), Phase::Idle);
    assert!(!sim.flag());
    sim.step(0, false);
    assert_eq!(sim.phase(0), Phase::Holding);
    assert!(sim.flag());
    sim.step(0, false);
    assert_eq!(sim.phase(0), Phase::Loaded(0));
    sim.step(0, false);
    assert_eq!(sim.phase(0), Phase::Stored);
    assert_eq!(sim.counter(), 1);
    assert_eq!(sim.finished(), 0);
    sim.step(0, false);
    assert_eq!(sim.phase(0), Phase::Idle);
    assert!(!sim.flag());
    assert_eq!(sim.counter(), 1);
    assert_eq!(sim.finished(), 1);
}

#[test]
fn a_locked_flag_keeps_the_others_out() {
    let mut sim = Simulation::new(Policy::AcquireRelease, 3);
    sim.step(1, false);
    assert_eq!(sim.phase(1), Phase::Holding);
    sim.step(0, false);
    sim.step(2, false);
    assert_eq!(sim.phase(0), Phase::Idle);
    assert_eq!(sim.phase(2), Phase::Idle);
    assert_eq!(sim.inside(), 1);
}

#[test]
fn a_thread_that_does_not_exist_makes_no_step() {
    let mut sim = Simulation::new(Policy::AcquireRelease, 2);
    sim.step(2, false);
    sim.step(usize::MAX, true);
    assert_eq!(sim.phase(0), Phase::Idle);
    assert_eq!(sim.phase(1), Phase::Idle);
    assert!(!sim.flag());
    assert_eq!(sim.counter(), 0);
}

#[test]
fn sound_policy_counts_every_run() {
    // 100 threads, 1000 turns each, interleaved as finely as the schedule allows
    let threads = 100;
    let mut sim = Simulation::new(Policy::AcquireRelease, threads);
    let mut most_inside = 0;
    for round in 0..1000 * 4 {
        for t in 0..threads {
            // a different thread goes first in every round; `early` is asked for
            // throughout and must be ignored
            sim.step((t + round) % threads, true);
            let inside = sim.inside();
            if inside > most_inside {
                most_inside = inside;
            }
        }
    }
    // let every thread that is inside finish
    for _ in 0..4 {
        for t in 0..threads {
            if sim.phase(t) != Phase::Idle {
                sim.step(t, true);
            }
        }
    }
    assert_eq!(most_inside, 1);
    assert_eq!(sim.inside(), 0);
    assert_eq!(sim.counter(), sim.finished());
    assert!(sim.finished() > 0);
}

#[test]
fn sound_policy_one_thread_after_the_other() {
    let mut sim = Simulation::new(Policy::AcquireRelease, 100);
    for _ in 0..1000 {
        for t in 0..100 {
            for _ in 0..4 {
                sim.step(t, false);
            }
        }
    }
    assert_eq!(sim.finished(), 100 * 1000);
    assert_eq!(sim.counter(), 100 * 1000);
}

#[test]
fn naive_policy_lets_two_in_and_loses_a_run() {
    let mut sim = Simulation::new(Policy::Naive, 2);
    let schedule = vec![mv(0), mv(1), mv(0), mv(1)];
    sim.run(&schedule);
    assert_eq!(sim.phase(0), Phase::Holding);
    assert_eq!(sim.phase(1), Phase::Holding);
    assert_eq!(sim.inside(), 2);
    let rest = vec![mv(0), mv(1), mv(0), mv(1), mv(0), mv(1)];
    sim.run(&rest);
    assert_eq!(sim.inside(), 0);
    assert_eq!(sim.finished(), 2);
    assert_eq!(sim.counter(), 1);
}

#[test]
fn naive_policy_is_fine_without_a_race() {
    let mut sim = Simulation::new(Policy::Naive, 2);
    for t in [0usize, 1, 0, 1] {
        for _ in 0..5 {
            sim.step(t, false);
        }
    }
    assert_eq!(sim.finished(), 4);
    assert_eq!(sim.counter(), 4);
}

#[test]
fn relaxed_policy_loses_a_run_when_the_release_overtakes() {
    let mut sim = Simulation::new(Policy::RelaxedCas, 2);
    let schedule = vec![
        mv(0),
        mv(0),
        Move { thread: 0, early: true },
        mv(1),
        mv(1),
        mv(1),
        mv(1),
        mv(0),
    ];
    sim.run(&schedule);
    assert_eq!(sim.phase(0), Phase::Idle);
    assert_eq!(sim.phase(1), Phase::Idle);
    assert_eq!(sim.finished(), 2);
    assert_eq!(sim.counter(), 1);
}

#[test]
fn relaxed_policy_never_lets_two_in() {
    let mut sim = Simulation::new(Policy::RelaxedCas, 2);
    sim.step(0, false);
    sim.step(1, false);
    assert_eq!(sim.inside(), 1);
    sim.step(0, false);
    sim.step(0, true);
    assert_eq!(sim.phase(0), Phase::Late(0));
    assert!(!sim.flag());
    sim.step(1, false);
    assert_eq!(sim.inside(), 1);
}

#[test]
fn same_schedule_is_harmless_under_the_sound_policy() {
    let mut sim = Simulation::new(Policy::AcquireRelease, 2);
    let schedule = vec![
        mv(0),
        mv(0),
        Move { thread: 0, early: true },
        mv(1),
        mv(1),
        mv(1),
        mv(1),
        mv(0),
    ];
    sim.run(&schedule);
    // the release cannot overtake: the first thread wrote and then released,
    // and the second was kept out all the while
    assert_eq!(sim.finished(), 1);
    assert_eq!(sim.counter(), 1);
    assert_eq!(sim.inside(), 0);
    assert_eq!(sim.phase(1), Phase::Idle);
}

#[test]
fn empty_schedule_changes_nothing() {
    let mut sim = Simulation::new(Policy::Naive, 0);
    sim.run(&Vec::new());
    assert_eq!(sim.threads(), 0);
    assert_eq!(sim.inside(), 0);
    assert_eq!(sim.counter(), 0);
}

#[test]
fn orderings_keep_their_names() {
    assert_eq!(ordering(MemOrder::Relaxed), Ordering::Relaxed);
    assert_eq!(ordering(MemOrder::Acquire), Ordering::Acquire);
    assert_eq!(ordering(MemOrder::Release), Ordering::Release);
}

#[test]
fn a_free_flag_is_won_and_a_taken_one_is_not() {
    for policy in [Policy::RelaxedCas, Policy::AcquireRelease] {
        let flag = SpinFlag::new(policy);
        assert_eq!(flag.policy(), policy);
        assert!(!flag.spin(0));
        // a weak swap may fail for no reason, but not a thousand times over
        assert!(flag.spin(1000));
        assert!(!flag.spin(10));
        assert_eq!(flag.attempt(), Attempt::Retry);
        flag.release();
        assert!(flag.spin(1000));
    }
}

#[test]
fn naive_flag_answers_take_to_everyone_who_looks_in_time() {
    let flag = SpinFlag::new(Policy::Naive);
    // two looks before either writes: both are told to go ahead
    assert_eq!(flag.attempt(), Attempt::Take);
    assert_eq!(flag.attempt(), Attempt::Take);
    flag.take();
    assert_eq!(flag.attempt(), Attempt::Retry);
    flag.take();
    assert_eq!(flag.attempt(), Attempt::Retry);
    flag.release();
    assert!(flag.spin(1));
    assert!(!flag.spin(5));
}
