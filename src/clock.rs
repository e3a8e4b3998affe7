//! Per-writer logical clocks.
//!
//! A `ClockSet` is an elastic pool of counters. A writer takes one with
//! `get_clock`, stamps its operations with `tick_once` / `advance_to`, and
//! hands the guard back with `ClockSet::release`. While a guard is out, the
//! clock it came from is marked as held and no other guard can be taken for
//! it; the guard itself carries the counter, so ticks never contend.
use vstd::prelude::*;

verus! {

/// What `tick_once` does: the counter goes up by one and the new value is
/// returned.
pub open spec fn tick_step(before: u64, after: u64, r: u64) -> bool {
    &&& after == before + 1
    &&& r == after
}

/// What `advance_to(new_tick)` leaves in a counter that held `current`.
pub open spec fn advance_result(current: u64, new_tick: u64) -> u64 {
    if new_tick > current {
        new_tick
    } else {
        current
    }
}

/// A single counter with an exclusive-use flag.
#[derive(Clone, Copy, Debug)]
pub struct Clock {
    clock: u64,
    available: bool,
}

impl Clock {
    pub closed spec fn tick_value(&self) -> u64 {
        self.clock
    }

    pub closed spec fn is_available(&self) -> bool {
        self.available
    }

    /// A fresh clock at zero, free to be taken.
    pub fn new_unlocked() -> (r: Clock)
        ensures
            r.tick_value() == 0,
            r.is_available(),
    {
        Clock { clock: 0, available: true }
    }

    /// Increments the counter and returns the new value.
    pub fn tick_once(&mut self) -> (r: u64)
        requires
            old(self).tick_value() < u64::MAX,
        ensures
            tick_step(old(self).tick_value(), final(self).tick_value(), r),
            final(self).is_available() == old(self).is_available(),
    {
        self.clock = self.clock + 1;
        self.clock
    }

    /// Moves the counter up to `new_tick` if it is behind, and returns the
    /// resulting value. The counter never goes backwards.
    pub fn advance_to(&mut self, new_tick: u64) -> (r: u64)
        ensures
            r == advance_result(old(self).tick_value(), new_tick),
            final(self).tick_value() == r,
            final(self).is_available() == old(self).is_available(),
            new_tick <= old(self).tick_value() ==> *final(self) == *old(self),
    {
        if new_tick > self.clock {
            self.clock = new_tick;
        }
        self.clock
    }

    /// Takes this clock if it is free: marks it as held and returns a guard
    /// that carries its counter. Returns `None` if it is already held.
    fn try_lock(&mut self, id: usize) -> (r: Option<ClockGuard>)
        ensures
            old(self).is_available() ==> {
                &&& r is Some
                &&& r->0.gid() == id
                &&& r->0.tick_view() == old(self).tick_value()
                &&& final(self).tick_value() == old(self).tick_value()
                &&& !final(self).is_available()
            },
            !old(self).is_available() ==> r is None && *final(self) == *old(self),
    {
        if self.available {
            self.available = false;
            Some(ClockGuard::new(id, *self))
        } else {
            None
        }
    }

    /// Frees this clock again, keeping the counter its holder reached.
    fn release(&mut self, tick: u64)
        ensures
            final(self).tick_value() == tick,
            final(self).is_available(),
    {
        self.clock = tick;
        self.available = true;
    }
}

/// Exclusive use of one clock of a `ClockSet`, identified by its index.
#[derive(Debug)]
pub struct ClockGuard {
    id: usize,
    clock: Clock,
}

impl ClockGuard {
    pub closed spec fn gid(&self) -> usize {
        self.id
    }

    pub closed spec fn tick_view(&self) -> u64 {
        self.clock.clock
    }

    fn new(id: usize, clock: Clock) -> (r: ClockGuard)
        ensures
            r.gid() == id,
            r.tick_view() == clock.tick_value(),
    {
        ClockGuard { id, clock }
    }

    /// The index of the clock in its pool.
    pub fn id(&self) -> (r: usize)
        ensures
            r == self.gid(),
    {
        self.id
    }

    /// The counter's current value.
    pub fn current_tick(&self) -> (r: u64)
        ensures
            r == self.tick_view(),
    {
        self.clock.clock
    }

    /// Increments the counter and returns the new value.
    #[must_use]
    pub fn tick_once(&mut self) -> (r: u64)
        requires
            old(self).tick_view() < u64::MAX,
        ensures
            tick_step(old(self).tick_view(), final(self).tick_view(), r),
            final(self).gid() == old(self).gid(),
    {
        self.clock.tick_once()
    }

    /// Moves the counter up to `new_tick` if it is behind, and returns the
    /// resulting value.
    pub fn advance_to(&mut self, new_tick: u64) -> (r: u64)
        ensures
            r == advance_result(old(self).tick_view(), new_tick),
            final(self).tick_view() == r,
            final(self).gid() == old(self).gid(),
            new_tick <= old(self).tick_view() ==> final(self).tick_view() == old(self).tick_view(),
    {
        self.clock.advance_to(new_tick)
    }
}

/// `i` is the index of the first free clock of `s`, or `s.len()` when every
/// clock is held.
pub open spec fn first_free(s: Seq<Clock>, i: int) -> bool {
    &&& 0 <= i <= s.len()
    &&& i < s.len() ==> s[i].is_available()
    &&& forall|j: int| 0 <= j < i ==> !(#[trigger] s[j]).is_available()
}

/// What `get_clock` does to a pool `before`, leaving `after` and handing out
/// `g`: the first free clock is taken, or a new clock at zero is appended and
/// taken when all are held.
pub open spec fn get_clock_step(before: Seq<Clock>, after: Seq<Clock>, g: ClockGuard) -> bool {
    let i = g.gid() as int;
    &&& first_free(before, i)
    &&& if i < before.len() {
        &&& after.len() == before.len()
        &&& after[i].tick_value() == before[i].tick_value()
        &&& !after[i].is_available()
        &&& g.tick_view() == before[i].tick_value()
        &&& forall|j: int| 0 <= j < before.len() && j != i ==> after[j] == before[j]
    } else {
        &&& after.len() == before.len() + 1
        &&& after[i].tick_value() == 0
        &&& !after[i].is_available()
        &&& g.tick_view() == 0
        &&& forall|j: int| 0 <= j < before.len() ==> after[j] == before[j]
    }
}

/// What `release(g)` does to a pool `before`, leaving `after`: the guard's
/// clock is freed with the counter the guard reached.
pub open spec fn release_step(before: Seq<Clock>, after: Seq<Clock>, g: ClockGuard) -> bool {
    let i = g.gid() as int;
    if i < before.len() {
        &&& after.len() == before.len()
        &&& after[i].tick_value() == g.tick_view()
        &&& after[i].is_available()
        &&& forall|j: int| 0 <= j < before.len() && j != i ==> after[j] == before[j]
    } else {
        after == before
    }
}

impl Default for ClockSet {
    fn default() -> (r: ClockSet)
        ensures
            r.clocks().len() == 0,
    {
        ClockSet::new()
    }
}

/// A growable pool of clocks; a clock's index is its id and never changes.
#[derive(Debug)]
pub struct ClockSet {
    clocks: Vec<Clock>,
}

impl ClockSet {
    pub closed spec fn clocks(&self) -> Seq<Clock> {
        self.clocks@
    }

    /// An empty pool.
    pub fn new() -> (r: ClockSet)
        ensures
            r.clocks().len() == 0,
    {
        ClockSet { clocks: Vec::new() }
    }

    /// The number of clocks in the pool, held or free.
    pub fn len(&self) -> (r: usize)
        ensures
            r == self.clocks().len(),
    {
        self.clocks.len()
    }

    /// Takes the first free clock of the pool, or creates one if all are held.
    pub fn get_clock(&mut self) -> (g: ClockGuard)
        requires
            old(self).clocks().len() < usize::MAX,
        ensures
            get_clock_step(old(self).clocks(), final(self).clocks(), g),
    {
        let n = self.clocks.len();
        let mut i: usize = 0;
        while i < n
            invariant
                n == self.clocks@.len(),
                self.clocks@ == old(self).clocks@,
                0 <= i <= n,
                forall|j: int| 0 <= j < i ==> !(#[trigger] self.clocks@[j]).is_available(),
            decreases n - i,
        {
            let r = self.clocks[i].try_lock(i);
            if let Some(g) = r {
                return g;
            }
            i = i + 1;
        }
        self.new_clock()
    }

    /// Appends a new clock, takes it and returns its guard.
    fn new_clock(&mut self) -> (g: ClockGuard)
        requires
            old(self).clocks().len() < usize::MAX,
        ensures
            g.gid() == old(self).clocks().len(),
            g.tick_view() == 0,
            final(self).clocks().len() == old(self).clocks().len() + 1,
            final(self).clocks()[g.gid() as int].tick_value() == 0,
            !final(self).clocks()[g.gid() as int].is_available(),
            forall|j: int|
                0 <= j < old(self).clocks().len() ==> final(self).clocks()[j] == old(self).clocks()[j],
    {
        let id = self.clocks.len();
        self.clocks.push(Clock::new_unlocked());
        let r = self.clocks[id].try_lock(id);
        r.unwrap()
    }

    /// Gives a guard back: its clock becomes free again and keeps the counter
    /// the guard reached. A guard whose id is outside the pool changes nothing.
    pub fn release(&mut self, guard: ClockGuard)
        ensures
            release_step(old(self).clocks(), final(self).clocks(), guard),
    {
        if guard.id < self.clocks.len() {
            self.clocks[guard.id].release(guard.clock.clock);
        }
    }
}

proof fn lemma_fresh_pool_prefix(pools: Seq<Seq<Clock>>, guards: Seq<ClockGuard>, k: int)
    requires
        pools.len() == guards.len() + 1,
        pools[0].len() == 0,
        forall|m: int| 0 <= m < guards.len() ==> get_clock_step(pools[m], #[trigger] pools[m + 1], guards[m]),
        0 <= k <= guards.len(),
    ensures
        pools[k].len() == k,
        forall|j: int| 0 <= j < k ==> !(#[trigger] pools[k][j]).is_available(),
        forall|i: int| 0 <= i < k ==> (#[trigger] guards[i]).gid() == i,
    decreases k,
{
    if k > 0 {
        lemma_fresh_pool_prefix(pools, guards, k - 1);
        let before = pools[k - 1];
        assert(get_clock_step(before, pools[(k - 1) + 1], guards[k - 1]));
        if (guards[k - 1].gid() as int) < before.len() {
            assert(!before[guards[k - 1].gid() as int].is_available());
        }
        assert(guards[k - 1].gid() == k - 1);
    }
}

/// Guards taken one after another from an empty pool, none of them given
/// back, have pairwise distinct ids, and the pool then holds exactly as many
/// clocks as there are guards.
pub proof fn lemma_held_guards_distinct(pools: Seq<Seq<Clock>>, guards: Seq<ClockGuard>)
    requires
        pools.len() == guards.len() + 1,
        pools[0].len() == 0,
        forall|m: int| 0 <= m < guards.len() ==> get_clock_step(pools[m], #[trigger] pools[m + 1], guards[m]),
    ensures
        forall|a: int, b: int|
            0 <= a < b < guards.len() ==> (#[trigger] guards[a]).gid() != (#[trigger] guards[b]).gid(),
        pools.last().len() == guards.len(),
{
    lemma_fresh_pool_prefix(pools, guards, guards.len() as int);
}

/// A clock given back keeps its counter: a guard later taken for the same id
/// starts where the released guard stopped, and that clock is the one taken
/// when every clock before it is held.
pub proof fn lemma_release_keeps_tick(
    p0: Seq<Clock>,
    p1: Seq<Clock>,
    p2: Seq<Clock>,
    g: ClockGuard,
    g2: ClockGuard,
)
    requires
        (g.gid() as int) < p0.len(),
        release_step(p0, p1, g),
        get_clock_step(p1, p2, g2),
    ensures
        g2.gid() == g.gid() ==> g2.tick_view() == g.tick_view(),
        (forall|j: int| 0 <= j < g.gid() ==> !(#[trigger] p0[j]).is_available()) ==> g2.gid()
            == g.gid(),
{
    if forall|j: int| 0 <= j < g.gid() ==> !(#[trigger] p0[j]).is_available() {
        if g2.gid() < g.gid() {
            assert(p1[g2.gid() as int] == p0[g2.gid() as int]);
        } else if g2.gid() > g.gid() {
            assert(!p1[g.gid() as int].is_available());
        }
    }
}

proof fn lemma_ticks_prefix(ticks: Seq<u64>, results: Seq<u64>, k: int)
    requires
        ticks.len() == results.len() + 1,
        ticks[0] == 0,
        forall|m: int| 0 <= m < results.len() ==> tick_step(ticks[m], #[trigger] ticks[m + 1], results[m]),
        0 <= k <= results.len(),
    ensures
        ticks[k] == k,
        forall|m: int| 0 <= m < k ==> #[trigger] results[m] == m + 1,
    decreases k,
{
    if k > 0 {
        lemma_ticks_prefix(ticks, results, k - 1);
        assert(tick_step(ticks[k - 1], ticks[(k - 1) + 1], results[k - 1]));
    }
}

/// Ticking a clock `n` times, starting from zero, returns 1, 2, ..., n.
pub proof fn lemma_ticks_count_up(ticks: Seq<u64>, results: Seq<u64>)
    requires
        ticks.len() == results.len() + 1,
        ticks[0] == 0,
        forall|k: int| 0 <= k < results.len() ==> tick_step(ticks[k], #[trigger] ticks[k + 1], results[k]),
    ensures
        forall|k: int| 0 <= k < results.len() ==> #[trigger] results[k] == k + 1,
{
    lemma_ticks_prefix(ticks, results, results.len() as int);
}

} // verus!
