use vstd::prelude::*;

verus! {

/// Decides, tick by tick, when the game loop broadcasts the deep-space
/// state and the player list.
#[derive(Clone, Copy, Debug, PartialEq, Eq, Structural)]
pub struct BroadcastSchedule {
    /// The space state goes out every this many ticks.
    pub broadcast_every_n: u32,
    /// The player list goes out every this many ticks (about twice a second).
    pub players_every_n: u32,
    /// Ticks run so far.
    pub tick_count: u64,
    /// A player joined, left or paused since the last player-list broadcast.
    pub players_dirty: bool,
}

/// `a / b`, but at least 1.
pub open spec fn ratio_at_least_one(a: u32, b: u32) -> u32 {
    if a / b >= 1 { (a / b) as u32 } else { 1 }
}

/// What a tick broadcasts.
#[derive(Clone, Copy, Debug, PartialEq, Eq, Structural)]
pub struct TickBroadcasts {
    pub space_state: bool,
    pub players_state: bool,
}

impl BroadcastSchedule {
    pub open spec fn wf(&self) -> bool {
        self.broadcast_every_n >= 1 && self.players_every_n >= 1
    }

    /// The schedule for a loop ticking `tick_rate_hz` times a second that
    /// broadcasts the space state `broadcast_rate_hz` times a second.
    pub fn new(tick_rate_hz: u32, broadcast_rate_hz: u32) -> (s: Self)
        requires
            broadcast_rate_hz > 0,
        ensures
            s.wf(),
            s.broadcast_every_n == ratio_at_least_one(tick_rate_hz, broadcast_rate_hz),
            s.players_every_n == ratio_at_least_one(tick_rate_hz, 2),
            s.tick_count == 0,
            !s.players_dirty,
    {
        let b = tick_rate_hz / broadcast_rate_hz;
        let p = tick_rate_hz / 2;
        BroadcastSchedule {
            broadcast_every_n: if b >= 1 { b } else { 1 },
            players_every_n: if p >= 1 { p } else { 1 },
            tick_count: 0,
            players_dirty: false,
        }
    }

    /// Notes that the player list changed, so it goes out at the next tick.
    pub fn mark_players_dirty(&mut self)
        ensures
            *final(self) == (BroadcastSchedule { players_dirty: true, ..*old(self) }),
    {
        self.players_dirty = true;
    }

    /// Counts a tick and says what it broadcasts: the space state on every
    /// `broadcast_every_n`-th tick, the player list on every
    /// `players_every_n`-th tick and on any tick after it changed.
    pub fn on_tick(&mut self) -> (b: TickBroadcasts)
        requires
            old(self).wf(),
            old(self).tick_count < u64::MAX,
        ensures
            final(self).wf(),
            final(self).tick_count == old(self).tick_count + 1,
            final(self).broadcast_every_n == old(self).broadcast_every_n,
            final(self).players_every_n == old(self).players_every_n,
            b.space_state == (final(self).tick_count % (old(self).broadcast_every_n as u64) == 0),
            b.players_state == (old(self).players_dirty || final(self).tick_count % (old(
                self,
            ).players_every_n as u64) == 0),
            final(self).players_dirty == (old(self).players_dirty && !b.players_state),
    {
        self.tick_count = self.tick_count + 1;
        let space_state = self.tick_count % (self.broadcast_every_n as u64) == 0;
        let players_state = self.players_dirty || self.tick_count % (self.players_every_n as u64)
            == 0;
        if players_state {
            self.players_dirty = false;
        }
        TickBroadcasts { space_state, players_state }
    }
}

/// Whatever the tick count, one of the next `players_every_n` ticks is a
/// multiple of it, so the player list goes out at least that often even
/// when nothing changes; the same holds of the space state and
/// `broadcast_every_n`.
pub proof fn lemma_periodic_broadcast_within_period(tick_count: u64, every_n: u32) -> (k: int)
    requires
        every_n >= 1,
    ensures
        1 <= k <= every_n,
        (tick_count + k) % (every_n as int) == 0,
{
    let t = tick_count as int;
    let m = every_n as int;
    let k = m - t % m;
    assert((t + k) % m == 0 && 1 <= k <= m) by (nonlinear_arith)
        requires
            m >= 1,
            t >= 0,
            k == m - t % m,
    {
        let q = t / m;
        let r = t % m;
        assert(t == q * m + r);
        assert(t + k == (q + 1) * m);
    }
    k
}

} // verus!
