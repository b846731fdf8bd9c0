//! `TimeBomb`: counts `1, 2, ..., limit - 1`, then goes off once and stays silent.
use vstd::prelude::*;

verus! {

/// What one advance of a [`TimeBomb`] produced.
#[derive(Debug, Clone, Copy, PartialEq, Eq, Structural)]
pub enum Tick {
    /// The next position, which is still below the limit.
    Count(u32),
    /// The position reached the limit: the one-time terminal signal.
    Boom,
    /// The sequence was already exhausted: nothing, and no signal.
    Silent,
}

/// The abstract state of a [`TimeBomb`].
pub ghost struct BombView {
    pub count: nat,
    pub limit: nat,
    pub fired: bool,
}

/// The state of a bomb just built with `limit`.
pub open spec fn fresh(limit: nat) -> BombView {
    BombView { count: 0, limit, fired: false }
}

/// One advance: the state after it and what it produced.
pub open spec fn step(s: BombView) -> (BombView, Tick) {
    if s.fired {
        (s, Tick::Silent)
    } else if s.count + 1 < s.limit {
        (BombView { count: s.count + 1, ..s }, Tick::Count((s.count + 1) as u32))
    } else {
        (BombView { count: s.count + 1, fired: true, ..s }, Tick::Boom)
    }
}

/// The state after `n` advances from `s`.
pub open spec fn run(s: BombView, n: nat) -> BombView
    decreases n,
{
    if n == 0 {
        s
    } else {
        step(run(s, (n - 1) as nat)).0
    }
}

/// What the advance made after `n` earlier ones produces, from a bomb built
/// with `limit`.
pub open spec fn tick_after(limit: nat, n: nat) -> Tick {
    step(run(fresh(limit), n)).1
}

/// How many of the first `n` advances of a bomb built with `limit` fired the
/// terminal signal.
pub open spec fn booms_within(limit: nat, n: nat) -> nat
    decreases n,
{
    if n == 0 {
        0
    } else {
        booms_within(limit, (n - 1) as nat) + if tick_after(limit, (n - 1) as nat) == Tick::Boom {
            1nat
        } else {
            0nat
        }
    }
}

/// The number of the advance on which a bomb built with `limit` goes off:
/// `limit` itself, or the first advance when `limit` is zero.
pub open spec fn fuse(limit: nat) -> nat {
    if limit == 0 {
        1
    } else {
        limit
    }
}

/// After `n` advances a fresh bomb sits at position `n` until it goes off,
/// and from then on at the position where it went off.
pub proof fn lemma_state_after(limit: nat, n: nat)
    ensures
        run(fresh(limit), n) == (if n < fuse(limit) {
            BombView { count: n, limit, fired: false }
        } else {
            BombView { count: fuse(limit), limit, fired: true }
        }),
    decreases n,
{
    if n > 0 {
        lemma_state_after(limit, (n - 1) as nat);
    }
}

/// Successive advances of a bomb built with `limit` yield `1, 2, ..., limit - 1`
/// in order, then the terminal signal on the advance that reaches the limit
/// (the first one when the limit is zero or one), then nothing forever after.
pub proof fn lemma_counts_then_stops(limit: u32, n: nat)
    ensures
        tick_after(limit as nat, n) == (if n + 1 < limit {
            Tick::Count((n + 1) as u32)
        } else if n + 1 == fuse(limit as nat) {
            Tick::Boom
        } else {
            Tick::Silent
        }),
{
    lemma_state_after(limit as nat, n);
}

/// The terminal signal fires exactly once over a bomb's lifetime: never
/// before the advance that reaches the limit, once on it, and never again
/// however many advances follow.
pub proof fn lemma_fires_once(limit: u32, n: nat)
    ensures
        booms_within(limit as nat, n) == (if n < fuse(limit as nat) {
            0nat
        } else {
            1nat
        }),
    decreases n,
{
    if n > 0 {
        lemma_fires_once(limit, (n - 1) as nat);
        lemma_counts_then_stops(limit, (n - 1) as nat);
    }
}

/// Once exhausted, a bomb stays as it is: any number of further advances
/// leave its state unchanged, and each produces nothing and no signal.
pub proof fn lemma_spent_stays_spent(s: BombView, n: nat)
    requires
        s.fired,
    ensures
        run(s, n) == s,
        step(run(s, n)) == (s, Tick::Silent),
    decreases n,
{
    if n > 0 {
        lemma_spent_stays_spent(s, (n - 1) as nat);
    }
}

/// A finite sequence of positions below a fixed limit, with a one-time
/// terminal signal when the limit is reached.
pub struct TimeBomb {
    count: u32,
    limit: u32,
    fired: bool,
}

impl View for TimeBomb {
    type V = BombView;

    closed spec fn view(&self) -> BombView {
        BombView { count: self.count as nat, limit: self.limit as nat, fired: self.fired }
    }
}

impl TimeBomb {
    /// Until the signal fires, the position stays below the limit, but for
    /// the starting position of a bomb whose limit is zero.
    #[verifier::type_invariant]
    closed spec fn inv(self) -> bool {
        !self.fired ==> (self.count < self.limit || self.count == 0)
    }

    /// A bomb at position zero that will count up to (not including) `limit`.
    pub fn new(limit: u32) -> (b: TimeBomb)
        ensures
            b@ == fresh(limit as nat),
    {
        TimeBomb { count: 0, limit, fired: false }
    }

    /// Advances by one: yields the new position while it is below the limit,
    /// `Boom` on the advance that reaches it, and `Silent` ever after.
    pub fn next(&mut self) -> (r: Tick)
        ensures
            (final(self)@, r) == step(old(self)@),
    {
        proof {
            use_type_invariant(&*self);
        }
        if self.fired {
            return Tick::Silent;
        }
        let c: u32 = self.count + 1;
        if c < self.limit {
            self.count = c;
            Tick::Count(c)
        } else {
            self.fired = true;
            self.count = c;
            Tick::Boom
        }
    }
}

} // verus!
