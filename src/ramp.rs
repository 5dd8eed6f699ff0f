//! The ramp that paces how a load generator spawns its virtual users.
//!
//! Users are spawned one at a time. After each spawn the ramp expression is
//! evaluated at the current tick; when the number of users spawned so far is
//! a multiple of that rate, the generator sleeps a second and the tick
//! advances.
use vstd::prelude::*;

verus! {

/// The larger of two integers; offered to ramp expressions.
pub fn max(a: i64, b: i64) -> (r: i64)
    ensures
        r == if a > b {
            a
        } else {
            b
        },
{
    if a > b {
        a
    } else {
        b
    }
}

/// The smaller of two integers; offered to ramp expressions.
pub fn min(a: i64, b: i64) -> (r: i64)
    ensures
        r == if a < b {
            a
        } else {
            b
        },
{
    if a < b {
        a
    } else {
        b
    }
}

/// The spawn rate that an evaluated ramp expression stands for: at least one.
pub open spec fn rate_of(v: i64) -> int {
    if v > 1 {
        v as int
    } else {
        1
    }
}

/// Clamps an evaluated ramp expression to a usable spawn rate.
pub fn clamp_rate(v: i64) -> (r: u64)
    ensures
        r == rate_of(v),
        r >= 1,
{
    max(v, 1) as u64
}

/// A load generator block whose configuration cannot run.
#[derive(Clone, Copy, Debug, PartialEq, Eq, Structural)]
pub enum ConfigError {
    /// `max_tasks` was not given.
    MissingMaxTasks,
    /// `max_tasks` was zero.
    ZeroMaxTasks,
    /// A top-level step at this index is not a load generator.
    NotLoadGen { index: usize },
}

/// The number of virtual users to spawn: `max_tasks`, which must be given
/// and positive.
pub fn user_count(max_tasks: Option<u64>) -> (r: Result<u64, ConfigError>)
    ensures
        match max_tasks {
            Some(n) => if n > 0 {
                r == Ok::<u64, ConfigError>(n)
            } else {
                r == Err::<u64, ConfigError>(ConfigError::ZeroMaxTasks)
            },
            None => r == Err::<u64, ConfigError>(ConfigError::MissingMaxTasks),
        },
{
    match max_tasks {
        Some(n) => if n > 0 {
            Ok(n)
        } else {
            Err(ConfigError::ZeroMaxTasks)
        },
        None => Err(ConfigError::MissingMaxTasks),
    }
}

/// Progress of the spawn loop: users spawned so far, out of `total`, and the
/// current tick.
#[derive(Clone, Copy, Debug, PartialEq, Eq, Structural)]
pub struct Ramp {
    pub spawned: u64,
    pub tick: u64,
    pub total: u64,
}

impl Ramp {
    /// The tick never runs ahead of the spawns, nor the spawns past the total.
    pub open spec fn wf(&self) -> bool {
        self.tick <= self.spawned <= self.total
    }

    /// A ramp that will spawn `total` users, at tick zero.
    pub fn new(total: u64) -> (r: Ramp)
        ensures
            r.wf(),
            r == (Ramp { spawned: 0, tick: 0, total }),
    {
        Ramp { spawned: 0, tick: 0, total }
    }

    /// Whether another user is due.
    pub fn has_next(&self) -> (r: bool)
        ensures
            r == (self.spawned < self.total),
    {
        self.spawned < self.total
    }

    /// Records one spawn, after which the ramp expression evaluated to
    /// `rate_value` at the current tick. Returns whether to sleep a second
    /// before the next spawn; the tick advances exactly then.
    pub fn record_spawn(&mut self, rate_value: i64) -> (sleep: bool)
        requires
            old(self).wf(),
            old(self).spawned < old(self).total,
        ensures
            final(self).wf(),
            final(self).total == old(self).total,
            final(self).spawned == old(self).spawned + 1,
            sleep == ((old(self).spawned + 1) % rate_of(rate_value) == 0),
            final(self).tick == if sleep {
                old(self).tick + 1
            } else {
                old(self).tick as int
            },
    {
        let rate = clamp_rate(rate_value);
        self.spawned = self.spawned + 1;
        let sleep = self.spawned % rate == 0;
        if sleep {
            self.tick = self.tick + 1;
        }
        sleep
    }
}

/// How long a tick lasts: when a tick begins after `start` spawns and its
/// rate is `rate`, the ramp sleeps after exactly `rate - start % rate` more
/// spawns, and not before. A tick holds `rate` users exactly when it begins
/// at a multiple of its rate.
pub proof fn lemma_tick_length(start: nat, rate: nat)
    requires
        rate >= 1,
    ensures
        forall|j: int|
            1 <= j < rate - (start % rate) ==> #[trigger] ((start + j) % (rate as int)) != 0,
        (start + (rate - start % rate)) % (rate as int) == 0,
        1 <= rate - start % rate <= rate,
        (rate - start % rate == rate) <==> start % rate == 0,
{
    let s = start as int;
    let r = rate as int;
    let q = s / r;
    let m = s % r;
    assert(s == q * r + m && 0 <= m < r && q >= 0) by (nonlinear_arith)
        requires
            q == s / r,
            m == s % r,
            r >= 1,
            s >= 0,
    ;
    assert forall|j: int| 1 <= j < r - m implies #[trigger] ((start + j) % r) != 0 by {
        assert((q * r + (m + j)) % r == m + j) by (nonlinear_arith)
            requires
                0 < m + j < r,
                q >= 0,
        ;
    }
    assert((q * r + (m + (r - m))) % r == 0) by (nonlinear_arith)
        requires
            r >= 1,
            q >= 0,
    ;
}

/// With the rate equal to the tick, a tick `t` that begins after `start`
/// spawns holds `t` users, and the next tick one more, provided each of the
/// two begins at a multiple of its rate.
pub proof fn lemma_tick_ramp_step(start: nat, t: nat)
    requires
        t >= 1,
        start % t == 0,
        (start + t) % (t + 1) == 0,
    ensures
        t - start % t == t,
        (t + 1) - (start + t) % (t + 1) == t + 1,
{
    lemma_tick_length(start, t);
    lemma_tick_length((start + t) as nat, t + 1);
}

} // verus!
