use shard_sync::clock::{Clock, ClockSet};

#[test]
fn pool_scenario_reuses_released_clock() {
    let mut set = ClockSet::new();
    assert_eq!(set.len(), 0);

    let mut a = set.get_clock();
    assert_eq!(a.id(), 0);
    assert_eq!(a.current_tick(), 0);
    assert_eq!(a.tick_once(), 1);

    let b = set.get_clock();
    assert_eq!(b.id(), 1);
    assert_eq!(b.current_tick(), 0);

    set.release(a);
    let mut c = set.get_clock();
    assert_eq!(c.id(), 0);
    assert_eq!(c.current_tick(), 1);
    assert_eq!(c.tick_once(), 2);
    assert_eq!(set.len(), 2);
    set.release(b);
    set.release(c);
}

#[test]
fn held_guards_have_distinct_ids() {
    let mut set = ClockSet::new();
    let mut guards = Vec::new();
    for _ in 0..5 {
        guards.push(set.get_clock());
    }
    let ids: Vec<usize> = guards.iter().map(|g| g.id()).collect();
    assert_eq!(ids, vec![0, 1, 2, 3, 4]);
    assert_eq!(set.len(), 5);
}

#[test]
fn first_free_clock_is_taken() {
    let mut set = ClockSet::new();
    let g0 = set.get_clock();
    let g1 = set.get_clock();
    let mut g2 = set.get_clock();
    assert_eq!(g2.advance_to(40), 40);
    set.release(g2);
    set.release(g1);
    let again = set.get_clock();
    assert_eq!(again.id(), 1);
    let next = set.get_clock();
    assert_eq!(next.id(), 2);
    assert_eq!(next.current_tick(), 40);
    assert_eq!(set.len(), 3);
    set.release(g0);
}

#[test]
fn ticks_count_up_from_one() {
    let mut set = ClockSet::new();
    let mut g = set.get_clock();
    let seen: Vec<u64> = (0..10).map(|_| g.tick_once()).collect();
    assert_eq!(seen, (1..=10).collect::<Vec<u64>>());
}

#[test]
fn ticks_persist_across_lock_cycles() {
    let mut set = ClockSet::new();
    for round in 1..=3u64 {
        let mut g = set.get_clock();
        assert_eq!(g.id(), 0);
        assert_eq!(g.current_tick(), round - 1);
        assert_eq!(g.tick_once(), round);
        set.release(g);
    }
    assert_eq!(set.len(), 1);
}

#[test]
fn advance_to_never_goes_back() {
    let mut set = ClockSet::new();
    let mut g = set.get_clock();
    assert_eq!(g.advance_to(7), 7);
    assert_eq!(g.current_tick(), 7);
    assert_eq!(g.advance_to(3), 7);
    assert_eq!(g.current_tick(), 7);
    assert_eq!(g.advance_to(7), 7);
    assert_eq!(g.tick_once(), 8);
    assert_eq!(g.advance_to(u64::MAX), u64::MAX);
}

#[test]
fn bare_clock_ticks_and_advances() {
    let mut c = Clock::new_unlocked();
    assert_eq!(c.tick_once(), 1);
    assert_eq!(c.advance_to(0), 1);
    assert_eq!(c.advance_to(5), 5);
    assert_eq!(c.tick_once(), 6);
}

#[test]
fn default_pool_is_empty() {
    let mut set = ClockSet::default();
    assert_eq!(set.len(), 0);
    let g = set.get_clock();
    assert_eq!((g.id(), g.current_tick()), (0, 0));
    assert_eq!(set.len(), 1);
}
