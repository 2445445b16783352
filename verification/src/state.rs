use rand_chacha::ChaCha8Rng;
use std::collections::HashMap;
use vstd::prelude::*;
use vstd::std_specs::iter::IteratorSpec;

use crate::bot::{has_bot, BotManager, BotPlayer};
use crate::config::ServerConfig;
use crate::player::{color_from_id, spec_color_from_id, Player};
use crate::rng::seeded_rng;
use crate::sphere::{cell_range, PlacementModel, PortalPlacement};

verus! {

broadcast use vstd::std_specs::hash::group_hash_axioms;

/// Where a ball that a portal captured goes.
#[derive(Clone, Copy, Debug, PartialEq, Eq, Structural)]
pub enum CaptureRoute {
    /// A bot captured it while real players are active: it queues the ball.
    ToBot,
    /// A bot captured it while no real player is active: the ball is dropped.
    Discard,
    /// A real player captured it: the ball is transferred to that player.
    ToPlayer,
}

/// A player as the periodic player-state broadcast reports it.
#[derive(Clone, Copy, Debug, PartialEq, Eq, Structural)]
pub struct PlayerStatus {
    pub player: Player,
    /// Balls this player sent to deep space that are still travelling.
    pub balls_in_flight: u32,
}

/// The player a newly seated player `id` in `cell` starts as.
pub open spec fn fresh_player(id: u32, cell: usize, is_bot: bool) -> Player {
    Player {
        id,
        cell_index: cell as u32,
        color: spec_color_from_id(id) as u32,
        paused: false,
        balls_produced: 0,
        is_bot,
    }
}

/// How many of the balls in flight (given by owner) belong to `id`.
pub open spec fn count_owned(owners: Seq<u32>, id: u32) -> nat
    decreases owners.len(),
{
    if owners.len() == 0 {
        0
    } else {
        count_owned(owners.drop_last(), id) + if owners.last() == id { 1nat } else { 0nat }
    }
}

proof fn lemma_count_owned_bounded(owners: Seq<u32>, id: u32)
    ensures
        count_owned(owners, id) <= owners.len(),
    decreases owners.len(),
{
    if owners.len() > 0 {
        lemma_count_owned_bounded(owners.drop_last(), id);
    }
}

proof fn lemma_count_owned_step(owners: Seq<u32>, i: int, id: u32)
    requires
        0 <= i < owners.len(),
    ensures
        count_owned(owners.take(i + 1), id) == count_owned(owners.take(i), id) + if owners[i]
            == id {
            1nat
        } else {
            0nat
        },
{
    assert(owners.take(i + 1).drop_last() =~= owners.take(i));
}

/// Counts, for each owner id, how many of the given balls it owns.
fn count_by_owner(owners: &Vec<u32>) -> (counts: HashMap<u32, u32>)
    requires
        owners@.len() <= u32::MAX,
    ensures
        forall|k: u32| #[trigger]
            counts@.contains_key(k) <==> count_owned(owners@, k) > 0,
        forall|k: u32| #[trigger]
            counts@.contains_key(k) ==> counts@[k] == count_owned(owners@, k),
{
    let mut counts: HashMap<u32, u32> = HashMap::new();
    let n = owners.len();
    let mut i: usize = 0;
    while i < n
        invariant
            n == owners@.len(),
            n <= u32::MAX,
            i <= n,
            forall|k: u32| #[trigger]
                counts@.contains_key(k) <==> count_owned(owners@.take(i as int), k) > 0,
            forall|k: u32| #[trigger]
                counts@.contains_key(k) ==> counts@[k] == count_owned(owners@.take(i as int), k),
        decreases n - i,
    {
        let o = owners[i];
        let c: u32 = match counts.get(&o) {
            Some(c) => *c,
            None => 0,
        };
        proof {
            lemma_count_owned_bounded(owners@.take(i as int), o);
            assert forall|k: u32| true implies count_owned(owners@.take(i + 1), k) == count_owned(
                owners@.take(i as int),
                k,
            ) + if owners@[i as int] == k {
                1nat
            } else {
                0nat
            } by {
                lemma_count_owned_step(owners@, i as int, k);
            }
        }
        counts.insert(o, c + 1);
        i = i + 1;
    }
    assert(owners@.take(n as int) =~= owners@);
    counts
}

/// `r` is a player state of the registry `ps` with the balls in flight
/// owned by `owners`: each player listed once, with its record and its
/// number of balls in flight.
pub open spec fn is_players_state(ps: Map<u32, Player>, owners: Seq<u32>, r: Seq<PlayerStatus>) -> bool {
    &&& r.len() == ps.len()
    &&& forall|i: int|
        #![trigger r[i]]
        0 <= i < r.len() ==> {
            &&& ps.contains_key(r[i].player.id)
            &&& r[i].player == ps[r[i].player.id]
            &&& r[i].balls_in_flight == count_owned(owners, r[i].player.id)
        }
    &&& forall|i: int, j: int|
        0 <= i < r.len() && 0 <= j < r.len() && i != j ==> r[i].player.id != r[j].player.id
    &&& forall|id: u32| ps.contains_key(id) ==> exists|i: int| 0 <= i < r.len() && r[i].player.id == id
}

/// A player's balls in flight, as the player-state broadcast counts them,
/// are exactly the balls of the list whose owner it is.
pub proof fn lemma_count_owned_counts_owner(owners: Seq<u32>, id: u32)
    ensures
        count_owned(owners, id) == owners.filter(|o: u32| o == id).len(),
    decreases owners.len(),
{
    reveal_with_fuel(Seq::filter, 1);
    if owners.len() > 0 {
        lemma_count_owned_counts_owner(owners.drop_last(), id);
    }
}

/// The player state lists each registered player exactly once, with its
/// own record and the number of listed balls it owns.
pub proof fn lemma_players_state_reports_each_player(
    ps: Map<u32, Player>,
    owners: Seq<u32>,
    r: Seq<PlayerStatus>,
    id: u32,
)
    requires
        is_players_state(ps, owners, r),
        ps.contains_key(id),
    ensures
        exists|i: int|
            0 <= i < r.len() && r[i].player.id == id && r[i].player == ps[id]
                && r[i].balls_in_flight == owners.filter(|o: u32| o == id).len() && forall|j: int|
                0 <= j < r.len() && r[j].player.id == id ==> j == i,
{
    lemma_count_owned_counts_owner(owners, id);
    let i = choose|i: int| 0 <= i < r.len() && r[i].player.id == id;
    assert(r[i].player == ps[id]);
}

/// The registry's consistency, spelled out: every player sits under its own
/// id, on a cell of the sphere that is not free, and no two players share a
/// cell.
pub proof fn lemma_players_hold_distinct_cells(s: &GameState)
    requires
        s.wf(),
    ensures
        forall|id: u32|
            #[trigger] s.players@.contains_key(id) ==> {
                &&& s.players@[id].id == id
                &&& (s.players@[id].cell_index as int) < s.placement@.total
                &&& !s.placement@.free.contains(s.players@[id].cell_index as usize)
            },
        forall|a: u32, b: u32|
            s.players@.contains_key(a) && s.players@.contains_key(b) && a != b ==> s.players@[a].cell_index
                != s.players@[b].cell_index,
{
}

/// No cell is lost: every cell of the sphere is either free, ready to be
/// handed out, or held by a player (never both, by the lemma above).
pub proof fn lemma_every_cell_free_or_held(s: &GameState, c: usize)
    requires
        s.wf(),
        (c as int) < s.placement@.total,
    ensures
        s.placement@.free.contains(c) || cell_is_held(s.players@, c),
        !(s.placement@.free.contains(c) && cell_is_held(s.players@, c)),
{
    if cell_is_held(s.players@, c) {
        let q = choose|q: u32|
            #[trigger] s.players@.contains_key(q) && s.players@[q].cell_index as int == c as int;
        assert(s.players@.contains_key(q));
    }
}

/// The iterator over the player registry.
pub open spec fn spec_players_iter(players: &HashMap<u32, Player>) -> std::collections::hash_map::Iter<
    '_,
    u32,
    Player,
> {
    vstd::std_specs::hash::spec_hash_map_iter(players)
}

/// Where a capture by `player_id`'s portal goes, given the bot roster.
pub open spec fn route_of(bots: Seq<BotPlayer>, player_id: u32, has_active: bool) -> CaptureRoute {
    if has_bot(bots, player_id) {
        if has_active {
            CaptureRoute::ToBot
        } else {
            CaptureRoute::Discard
        }
    } else {
        CaptureRoute::ToPlayer
    }
}

/// The positions in `ids` (the players whose portals took a tick's
/// captures) whose capture goes `route`, in order.
pub open spec fn positions_routed(
    bots: Seq<BotPlayer>,
    ids: Seq<u32>,
    has_active: bool,
    route: CaptureRoute,
) -> Seq<usize>
    decreases ids.len(),
{
    if ids.len() == 0 {
        Seq::empty()
    } else {
        let rest = positions_routed(bots, ids.drop_last(), has_active, route);
        if route_of(bots, ids.last(), has_active) == route {
            rest.push((ids.len() - 1) as usize)
        } else {
            rest
        }
    }
}

/// The captures of a tick that reach the caller are exactly those of real
/// players' portals, in capture order: bot captures never reach it. The
/// same holds of the captures that go to bots, while real players are
/// active.
pub proof fn lemma_routed_positions_exact(
    bots: Seq<BotPlayer>,
    ids: Seq<u32>,
    has_active: bool,
    route: CaptureRoute,
)
    requires
        ids.len() <= usize::MAX,
    ensures
        forall|i: int|
            0 <= i < ids.len() ==> (positions_routed(bots, ids, has_active, route).contains(
                i as usize,
            ) <==> route_of(bots, ids[i], has_active) == route),
        forall|a: int, b: int|
            0 <= a < b < positions_routed(bots, ids, has_active, route).len() ==> positions_routed(
                bots,
                ids,
                has_active,
                route,
            )[a] < positions_routed(bots, ids, has_active, route)[b],
        forall|a: int|
            0 <= a < positions_routed(bots, ids, has_active, route).len() ==> (positions_routed(
                bots,
                ids,
                has_active,
                route,
            )[a] as int) < ids.len(),
    decreases ids.len(),
{
    if ids.len() > 0 {
        let init = ids.drop_last();
        lemma_routed_positions_exact(bots, init, has_active, route);
        let rest = positions_routed(bots, init, has_active, route);
        let full = positions_routed(bots, ids, has_active, route);
        let last = ids.len() - 1;
        assert forall|i: int| 0 <= i < ids.len() implies (full.contains(i as usize) <==> route_of(
            bots,
            ids[i],
            has_active,
        ) == route) by {
            if i < last {
                assert(init[i] == ids[i]);
                if full.contains(i as usize) {
                    let k = choose|k: int| 0 <= k < full.len() && full[k] == i as usize;
                    if k < rest.len() {
                        assert(rest[k] == full[k]);
                    }
                }
                if rest.contains(i as usize) {
                    let k = choose|k: int| 0 <= k < rest.len() && rest[k] == i as usize;
                    assert(full[k] == rest[k]);
                }
            } else {
                if route_of(bots, ids[i], has_active) == route {
                    assert(full[rest.len() as int] == i as usize);
                } else {
                    if full.contains(i as usize) {
                        let k = choose|k: int| 0 <= k < full.len() && full[k] == i as usize;
                        assert((rest[k] as int) < init.len());
                    }
                }
            }
        }
        assert forall|a: int, b: int| 0 <= a < b < full.len() implies full[a] < full[b] by {
            if b < rest.len() {
                assert(rest[a] == full[a] && rest[b] == full[b]);
            } else {
                assert(rest[a] == full[a]);
                assert((rest[a] as int) < init.len());
            }
        }
        assert forall|a: int| 0 <= a < full.len() implies (full[a] as int) < ids.len() by {
            if a < rest.len() {
                assert(rest[a] == full[a]);
            }
        }
    }
}

/// Whether some player in `ps` sits on `cell`.
pub open spec fn cell_is_held(ps: Map<u32, Player>, cell: usize) -> bool {
    exists|id: u32| #[trigger] ps.contains_key(id) && ps[id].cell_index as int == cell as int
}

proof fn lemma_held_cells_stay_held(ps0: Map<u32, Player>, ps: Map<u32, Player>, c: usize)
    requires
        cell_is_held(ps0, c),
        forall|q: u32|
            #[trigger] ps0.contains_key(q) ==> ps.contains_key(q) && ps[q].cell_index
                == ps0[q].cell_index,
    ensures
        cell_is_held(ps, c),
{
    let q = choose|q: u32| #[trigger] ps0.contains_key(q) && ps0[q].cell_index as int == c as int;
    assert(ps.contains_key(q));
}

/// The game's bookkeeping: who plays, on which cell of the sphere, which
/// players are bots, and how many balls each has produced. The motion of
/// the balls themselves is simulated beside it.
pub struct GameState {
    pub placement: PortalPlacement,
    pub players: HashMap<u32, Player>,
    pub rng: ChaCha8Rng,
    pub bots: BotManager,
    /// The id the next player will get.
    pub next_player_id: u32,
    /// Global maximum number of balls in deep space.
    pub max_balls_global: usize,
    /// Whether real players were active at the previous tick.
    pub was_active: bool,
}

impl GameState {
    /// The registry is consistent: every player sits under its own id on
    /// its own cell, that cell is taken, ids stay below the next id, and all
    /// cells are on the sphere.
    pub closed spec fn wf(&self) -> bool {
        let pm = self.placement@;
        let ps = self.players@;
        &&& pm.wf()
        &&& pm.total < u32::MAX
        &&& self.next_player_id >= 1
        &&& forall|i: int| 0 <= i < pm.free.len() ==> (pm.free[i] as int) < pm.total
        &&& forall|id: u32|
            #![trigger ps.contains_key(id)]
            ps.contains_key(id) ==> {
                &&& ps[id].id == id
                &&& 1 <= id < self.next_player_id
                &&& (ps[id].cell_index as int) < pm.total
                &&& !pm.free.contains(ps[id].cell_index as usize)
            }
        &&& forall|a: u32, b: u32|
            #![trigger ps.contains_key(a), ps.contains_key(b)]
            ps.contains_key(a) && ps.contains_key(b) && a != b ==> ps[a].cell_index
                != ps[b].cell_index
        &&& forall|c: usize|
            #![trigger pm.free.contains(c)]
            (c as int) < pm.total ==> pm.free.contains(c) || cell_is_held(ps, c)
    }

    /// The id the next player will get.
    /// Seats a new player on the next free cell.
    fn add_player_internal(&mut self, is_bot: bool) -> (r: Option<(u32, Player)>)
        requires
            old(self).wf(),
            old(self).next_player_id < u32::MAX || old(self).placement@.free.len() == 0,
        ensures
            final(self).wf(),
            final(self).bots == old(self).bots,
            final(self).max_balls_global == old(self).max_balls_global,
            final(self).was_active == old(self).was_active,
            old(self).placement@.free.len() == 0 ==> r is None && final(self).players@ == old(
                self,
            ).players@ && final(self).placement@ == old(self).placement@ && final(self).next_player_id
                == old(self).next_player_id,
            old(self).placement@.free.len() > 0 ==> {
                let id = old(self).next_player_id;
                let p = fresh_player(id, old(self).placement@.free.last(), is_bot);
                &&& r == Some((id, p))
                &&& final(self).players@ == old(self).players@.insert(id, p)
                &&& final(self).placement@ == old(self).placement@.allocate(None).0
                &&& final(self).next_player_id == id + 1
            },
    {
        let ghost pm0 = self.placement@;
        proof {
            crate::sphere::lemma_allocate_takes_one_free_cell(pm0, None);
        }
        let cell_index = match self.placement.allocate(None) {
            Some(c) => c,
            None => return None,
        };
        proof {
            assert(pm0.free.contains(cell_index));
            let k = choose|k: int| 0 <= k < pm0.free.len() && pm0.free[k] == cell_index;
            assert((pm0.free[k] as int) < pm0.total);
        }
        let id = self.next_player_id;
        self.next_player_id = id + 1;
        let player = Player {
            id,
            cell_index: cell_index as u32,
            color: color_from_id(id),
            paused: false,
            balls_produced: 0,
            is_bot,
        };
        self.players.insert(id, player);
        proof {
            let ps0 = old(self).players@;
            let ps = self.players@;
            let pm = self.placement@;
            assert forall|q: u32| #![trigger ps.contains_key(q)] ps.contains_key(q) implies {
                &&& ps[q].id == q
                &&& 1 <= q < self.next_player_id
                &&& (ps[q].cell_index as int) < pm.total
                &&& !pm.free.contains(ps[q].cell_index as usize)
            } by {
                if q != id {
                    assert(ps0.contains_key(q));
                    assert(ps0[q].cell_index != cell_index as u32);
                }
            }
            assert forall|a: u32, b: u32|
                #![trigger ps.contains_key(a), ps.contains_key(b)]
                ps.contains_key(a) && ps.contains_key(b) && a != b implies ps[a].cell_index
                != ps[b].cell_index by {
                if a != id && b != id {
                    assert(ps0.contains_key(a) && ps0.contains_key(b));
                } else if a == id {
                    assert(ps0.contains_key(b));
                } else {
                    assert(ps0.contains_key(a));
                }
            }
            assert forall|i: int| 0 <= i < pm.free.len() implies (pm.free[i] as int) < pm.total by {
                assert(pm0.free.contains(pm.free[i]));
                let k = choose|k: int| 0 <= k < pm0.free.len() && pm0.free[k] == pm.free[i];
            }
            assert forall|c: usize| (c as int) < pm.total implies #[trigger] pm.free.contains(c)
                || cell_is_held(ps, c) by {
                if c == cell_index {
                    assert(ps.contains_key(id) && ps[id].cell_index as int == c as int);
                } else if !pm0.free.contains(c) {
                    assert(cell_is_held(ps0, c));
                    assert forall|q: u32| #[trigger] ps0.contains_key(q) implies ps.contains_key(q)
                        && ps[q].cell_index == ps0[q].cell_index by {
                        assert(q != id);
                    }
                    lemma_held_cells_stay_held(ps0, ps, c);
                }
            }
        }
        Some((id, player))
    }

    /// Adds a real player; `None` when every cell is taken.
    pub fn add_player(&mut self) -> (r: Option<(u32, Player)>)
        requires
            old(self).wf(),
            old(self).next_player_id < u32::MAX || old(self).placement@.free.len() == 0,
        ensures
            final(self).wf(),
            final(self).bots == old(self).bots,
            final(self).max_balls_global == old(self).max_balls_global,
            final(self).was_active == old(self).was_active,
            old(self).placement@.free.len() == 0 ==> r is None && final(self).players@ == old(
                self,
            ).players@ && final(self).placement@ == old(self).placement@ && final(self).next_player_id
                == old(self).next_player_id,
            old(self).placement@.free.len() > 0 ==> {
                let id = old(self).next_player_id;
                let p = fresh_player(id, old(self).placement@.free.last(), false);
                &&& r == Some((id, p))
                &&& final(self).players@ == old(self).players@.insert(id, p)
                &&& final(self).placement@ == old(self).placement@.allocate(None).0
                &&& final(self).next_player_id == id + 1
            },
    {
        self.add_player_internal(false)
    }

    /// Adds a bot player; returns its id, or `None` when every cell is taken.
    pub fn add_bot(&mut self) -> (r: Option<u32>)
        requires
            old(self).wf(),
            old(self).next_player_id < u32::MAX || old(self).placement@.free.len() == 0,
        ensures
            final(self).wf(),
            final(self).max_balls_global == old(self).max_balls_global,
            final(self).was_active == old(self).was_active,
            old(self).placement@.free.len() == 0 ==> r is None && final(self).players@ == old(
                self,
            ).players@ && final(self).placement@ == old(self).placement@ && final(self).next_player_id
                == old(self).next_player_id && final(self).bots.bots@ == old(self).bots.bots@,
            old(self).placement@.free.len() > 0 ==> {
                let id = old(self).next_player_id;
                let p = fresh_player(id, old(self).placement@.free.last(), true);
                &&& r == Some(id)
                &&& final(self).players@ == old(self).players@.insert(id, p)
                &&& final(self).placement@ == old(self).placement@.allocate(None).0
                &&& final(self).next_player_id == id + 1
                &&& final(self).bots.bots@.len() == old(self).bots.bots@.len() + 1
                &&& final(self).bots.bots@.drop_last() == old(self).bots.bots@
                &&& final(self).bots.bots@.last().player_id == id
            },
    {
        match self.add_player_internal(true) {
            None => None,
            Some((id, player)) => {
                self.bots.add_bot(&player, &mut self.rng);
                proof {
                    assert(self.bots.bots@.drop_last() =~= old(self).bots.bots@);
                }
                Some(id)
            },
        }
    }

    /// Removes a player and frees its cell. A bot's seat in the bot roster
    /// is left as it is.
    pub fn remove_player(&mut self, id: u32)
        requires
            old(self).wf(),
        ensures
            final(self).wf(),
            final(self).bots == old(self).bots,
            final(self).next_player_id == old(self).next_player_id,
            final(self).max_balls_global == old(self).max_balls_global,
            final(self).was_active == old(self).was_active,
            final(self).players@ == old(self).players@.remove(id),
            final(self).placement@ == if old(self).players@.contains_key(id) {
                old(self).placement@.release(old(self).players@[id].cell_index as usize)
            } else {
                old(self).placement@
            },
    {
        let removed = self.players.remove(&id);
        match removed {
            Some(player) => {
                let ghost pm0 = self.placement@;
                proof {
                    assert(old(self).players@.contains_key(id));
                    crate::sphere::lemma_release_frees_cell(pm0, player.cell_index as usize);
                }
                self.placement.release(player.cell_index as usize);
                proof {
                    let ps0 = old(self).players@;
                    let ps = self.players@;
                    let pm = self.placement@;
                    let c = player.cell_index as usize;
                    assert forall|q: u32| #![trigger ps.contains_key(q)] ps.contains_key(q) implies {
                        &&& ps[q].id == q
                        &&& 1 <= q < self.next_player_id
                        &&& (ps[q].cell_index as int) < pm.total
                        &&& !pm.free.contains(ps[q].cell_index as usize)
                    } by {
                        assert(ps0.contains_key(q) && ps0.contains_key(id) && q != id);
                        assert(ps0[q].cell_index != ps0[id].cell_index);
                    }
                    assert forall|a: u32, b: u32|
                        #![trigger ps.contains_key(a), ps.contains_key(b)]
                        ps.contains_key(a) && ps.contains_key(b) && a != b implies ps[a].cell_index
                        != ps[b].cell_index by {
                        assert(ps0.contains_key(a) && ps0.contains_key(b));
                    }
                    assert forall|i: int| 0 <= i < pm.free.len() implies (pm.free[i] as int)
                        < pm.total by {
                        if pm.free[i] != c {
                            assert(pm0.free.contains(pm.free[i]));
                            let k = choose|k: int| 0 <= k < pm0.free.len() && pm0.free[k] == pm.free[i];
                        }
                    }
                    assert forall|x: usize| (x as int) < pm.total implies #[trigger] pm.free.contains(x)
                        || cell_is_held(ps, x) by {
                        if x != c && !pm0.free.contains(x) {
                            assert(cell_is_held(ps0, x));
                            let q = choose|q: u32|
                                #[trigger] ps0.contains_key(q) && ps0[q].cell_index as int == x as int;
                            assert(q != id);
                            assert(ps.contains_key(q) && ps[q].cell_index as int == x as int);
                        }
                    }
                }
            },
            None => {
                proof {
                    assert(self.players@ =~= old(self).players@.remove(id));
                    assert(self.players@ =~= old(self).players@);
                }
            },
        }
    }

    /// Sets a player's paused flag. Returns true when the player exists and
    /// the flag changed.
    pub fn set_player_paused(&mut self, id: u32, paused: bool) -> (changed: bool)
        requires
            old(self).wf(),
        ensures
            final(self).wf(),
            final(self).bots == old(self).bots,
            final(self).placement@ == old(self).placement@,
            final(self).next_player_id == old(self).next_player_id,
            final(self).max_balls_global == old(self).max_balls_global,
            final(self).was_active == old(self).was_active,
            changed == (old(self).players@.contains_key(id) && old(self).players@[id].paused
                != paused),
            final(self).players@ == if changed {
                old(self).players@.insert(id, Player { paused, ..old(self).players@[id] })
            } else {
                old(self).players@
            },
    {
        let current = match self.players.get(&id) {
            Some(p) => *p,
            None => return false,
        };
        if current.paused == paused {
            return false;
        }
        let updated = Player { paused, ..current };
        self.players.insert(id, updated);
        proof {
            let ps0 = old(self).players@;
            let ps = self.players@;
            assert forall|a: u32, b: u32|
                #![trigger ps.contains_key(a), ps.contains_key(b)]
                ps.contains_key(a) && ps.contains_key(b) && a != b implies ps[a].cell_index
                != ps[b].cell_index by {
                assert(ps0.contains_key(a) && ps0.contains_key(b));
            }
            assert forall|q: u32| #![trigger ps.contains_key(q)] ps.contains_key(q) implies ps[q].id
                == q by {
                assert(ps0.contains_key(q));
            }
            let pm = self.placement@;
            assert forall|c: usize| (c as int) < pm.total implies #[trigger] pm.free.contains(c)
                || cell_is_held(ps, c) by {
                if !pm.free.contains(c) {
                    lemma_held_cells_stay_held(ps0, ps, c);
                }
            }
        }
        true
    }

    /// Books a ball that escaped from `owner_id`'s board while
    /// `balls_in_space` balls are already in deep space. Refused (`None`)
    /// when the global cap is reached or the player is unknown; otherwise the
    /// player's produced-ball count goes up by one and the player's cell,
    /// where the ball enters deep space, is returned.
    pub fn register_escape(&mut self, owner_id: u32, balls_in_space: usize) -> (cell: Option<u32>)
        requires
            old(self).wf(),
            balls_in_space < old(self).max_balls_global && old(self).players@.contains_key(
                owner_id,
            ) ==> old(self).players@[owner_id].balls_produced < u32::MAX,
        ensures
            final(self).wf(),
            final(self).bots == old(self).bots,
            final(self).placement@ == old(self).placement@,
            final(self).next_player_id == old(self).next_player_id,
            final(self).max_balls_global == old(self).max_balls_global,
            final(self).was_active == old(self).was_active,
            balls_in_space >= old(self).max_balls_global ==> cell is None && final(self).players@
                == old(self).players@,
            balls_in_space < old(self).max_balls_global && !old(self).players@.contains_key(
                owner_id,
            ) ==> cell is None && final(self).players@ == old(self).players@,
            balls_in_space < old(self).max_balls_global && old(self).players@.contains_key(owner_id)
                ==> {
                let p = old(self).players@[owner_id];
                &&& cell == Some(p.cell_index)
                &&& final(self).players@ == old(self).players@.insert(
                    owner_id,
                    Player { balls_produced: (p.balls_produced + 1) as u32, ..p },
                )
            },
    {
        if balls_in_space >= self.max_balls_global {
            return None;
        }
        let current = match self.players.get(&owner_id) {
            Some(p) => *p,
            None => return None,
        };
        let updated = Player { balls_produced: current.balls_produced + 1, ..current };
        self.players.insert(owner_id, updated);
        proof {
            let ps0 = old(self).players@;
            let ps = self.players@;
            assert forall|a: u32, b: u32|
                #![trigger ps.contains_key(a), ps.contains_key(b)]
                ps.contains_key(a) && ps.contains_key(b) && a != b implies ps[a].cell_index
                != ps[b].cell_index by {
                assert(ps0.contains_key(a) && ps0.contains_key(b));
            }
            assert forall|q: u32| #![trigger ps.contains_key(q)] ps.contains_key(q) implies ps[q].id
                == q by {
                assert(ps0.contains_key(q));
            }
            let pm = self.placement@;
            assert forall|c: usize| (c as int) < pm.total implies #[trigger] pm.free.contains(c)
                || cell_is_held(ps, c) by {
                if !pm.free.contains(c) {
                    lemma_held_cells_stay_held(ps0, ps, c);
                }
            }
        }
        Some(current.cell_index)
    }

    /// Records whether real players are active at this tick. Returns true on
    /// the tick where activity resumes after a quiet spell: then the bots'
    /// queued balls are to be dropped, so they do not flood deep space at once.
    pub fn update_activity(&mut self, has_active: bool) -> (flush: bool)
        ensures
            flush == (has_active && !old(self).was_active),
            final(self).was_active == has_active,
            final(self).players == old(self).players,
            final(self).placement == old(self).placement,
            final(self).bots == old(self).bots,
            final(self).next_player_id == old(self).next_player_id,
            final(self).max_balls_global == old(self).max_balls_global,
    {
        let flush = has_active && !self.was_active;
        self.was_active = has_active;
        flush
    }

    /// Where a ball captured by `player_id`'s portal goes. Bots only take
    /// balls while some real player is active; otherwise the ball is dropped.
    pub fn route_capture(&self, player_id: u32, has_active: bool) -> (route: CaptureRoute)
        ensures
            route == route_of(self.bots.bots@, player_id, has_active),
    {
        if self.bots.is_bot(player_id) {
            if has_active {
                CaptureRoute::ToBot
            } else {
                CaptureRoute::Discard
            }
        } else {
            CaptureRoute::ToPlayer
        }
    }

    /// Sorts one tick's captures, given the player whose portal took each
    /// one, in order: the positions of the captures that go to real players
    /// and of those that go to bots, each list in capture order. Captures
    /// that bots took while no real player is active are in neither list.
    pub fn split_captures(&self, capture_players: &Vec<u32>, has_active: bool) -> (r: (
        Vec<usize>,
        Vec<usize>,
    ))
        ensures
            r.0@ == positions_routed(
                self.bots.bots@,
                capture_players@,
                has_active,
                CaptureRoute::ToPlayer,
            ),
            r.1@ == positions_routed(
                self.bots.bots@,
                capture_players@,
                has_active,
                CaptureRoute::ToBot,
            ),
    {
        let ghost bots = self.bots.bots@;
        let ghost ids = capture_players@;
        let mut to_players: Vec<usize> = Vec::new();
        let mut to_bots: Vec<usize> = Vec::new();
        let n = capture_players.len();
        let mut i: usize = 0;
        assert(ids.take(0) =~= Seq::<u32>::empty());
        while i < n
            invariant
                n == ids.len(),
                ids == capture_players@,
                bots == self.bots.bots@,
                i <= n,
                to_players@ == positions_routed(bots, ids.take(i as int), has_active, CaptureRoute::ToPlayer),
                to_bots@ == positions_routed(bots, ids.take(i as int), has_active, CaptureRoute::ToBot),
            decreases n - i,
        {
            proof {
                let t = ids.take(i + 1);
                assert(t.drop_last() =~= ids.take(i as int));
                assert(t.last() == ids[i as int]);
                assert(t.len() - 1 == i);
            }
            match self.route_capture(capture_players[i], has_active) {
                CaptureRoute::ToPlayer => to_players.push(i),
                CaptureRoute::ToBot => to_bots.push(i),
                CaptureRoute::Discard => {},
            }
            i = i + 1;
        }
        assert(ids.take(n as int) =~= ids);
        (to_players, to_bots)
    }

    /// A fresh game for `server_config`: an empty sphere of
    /// `cell_count` cells with `bot_count` bots seated (as many as there are
    /// cells), ids counted from 1.
    pub fn new(server_config: &ServerConfig) -> (s: Self)
        requires
            server_config.cell_count < u32::MAX,
        ensures
            s.wf(),
            s.placement@.total == server_config.cell_count,
            s.max_balls_global == server_config.max_balls_global,
            !s.was_active,
            s.next_player_id - 1 == if server_config.bot_count <= server_config.cell_count {
                server_config.bot_count
            } else {
                server_config.cell_count
            },
            s.bots.bots@.len() == s.next_player_id - 1,
            forall|id: u32| #[trigger] s.players@.contains_key(id) <==> 1 <= id < s.next_player_id,
            forall|id: u32| #[trigger] s.players@.contains_key(id) ==> s.players@[id].is_bot,
            forall|id: u32| 1 <= id < s.next_player_id ==> #[trigger] has_bot(s.bots.bots@, id),
            forall|id: u32|
                #[trigger] s.players@.contains_key(id) ==> s.players@[id] == fresh_player(
                    id,
                    s.players@[id].cell_index as usize,
                    true,
                ),
            forall|k: int|
                0 <= k < s.bots.bots@.len() ==> #[trigger] s.bots.bots@[k].player_id == k + 1,
            s.placement@.free.len() + (s.next_player_id - 1) == server_config.cell_count,
    {
        let mut rng = seeded_rng(server_config.rng_seed);
        let placement = PortalPlacement::new(server_config.cell_count, &mut rng);
        let n = server_config.cell_count;
        proof {
            vstd::seq_lib::to_multiset_len(placement@.free);
            vstd::seq_lib::to_multiset_len(cell_range(n as nat));
            assert forall|i: int| 0 <= i < placement@.free.len() implies (placement@.free[i] as int)
                < n by {
                let x = placement@.free[i];
                assert(placement@.free.contains(x));
                vstd::seq_lib::to_multiset_contains(placement@.free, x);
                vstd::seq_lib::to_multiset_contains(cell_range(n as nat), x);
                let k = choose|k: int| 0 <= k < n && cell_range(n as nat)[k] == x;
            }
        }
        proof {
            assert forall|c: usize| (c as int) < n implies #[trigger] placement@.free.contains(c) by {
                assert(cell_range(n as nat)[c as int] == c);
                vstd::seq_lib::to_multiset_contains(cell_range(n as nat), c);
                vstd::seq_lib::to_multiset_contains(placement@.free, c);
            }
        }
        let mut state = GameState {
            placement,
            players: HashMap::new(),
            rng,
            bots: BotManager::new(),
            next_player_id: 1,
            max_balls_global: server_config.max_balls_global,
            was_active: false,
        };
        let bot_count = server_config.bot_count;
        let mut i: usize = 0;
        while i < bot_count
            invariant
                state.wf(),
                state.placement@.total == n,
                n < u32::MAX,
                i <= bot_count,
                state.next_player_id - 1 + state.placement@.free.len() == n,
                state.next_player_id - 1 == if i <= n { i as int } else { n as int },
                state.max_balls_global == server_config.max_balls_global,
                !state.was_active,
                state.bots.bots@.len() == state.next_player_id - 1,
                forall|id: u32|
                    #[trigger] state.players@.contains_key(id) <==> 1 <= id < state.next_player_id,
                forall|id: u32| #[trigger] state.players@.contains_key(id) ==> state.players@[id].is_bot,
                forall|id: u32| 1 <= id < state.next_player_id ==> #[trigger] has_bot(state.bots.bots@, id),
                forall|id: u32|
                    #[trigger] state.players@.contains_key(id) ==> state.players@[id] == fresh_player(
                        id,
                        state.players@[id].cell_index as usize,
                        true,
                    ),
                forall|k: int|
                    0 <= k < state.bots.bots@.len() ==> #[trigger] state.bots.bots@[k].player_id
                        == k + 1,
            decreases bot_count - i,
        {
            let ghost before = state;
            proof {
                crate::sphere::lemma_allocate_takes_one_free_cell(state.placement@, None);
            }
            state.add_bot();
            proof {
                if before.placement@.free.len() > 0 {
                    let nid = before.next_player_id;
                    assert forall|id: u32| 1 <= id < state.next_player_id implies #[trigger] has_bot(
                        state.bots.bots@,
                        id,
                    ) by {
                        if id == nid {
                            assert(state.bots.bots@[state.bots.bots@.len() - 1].player_id == id);
                        } else {
                            assert(has_bot(before.bots.bots@, id));
                            let j = choose|j: int|
                                0 <= j < before.bots.bots@.len() && before.bots.bots@[j].player_id
                                    == id;
                            assert(state.bots.bots@.drop_last()[j] == state.bots.bots@[j]);
                        }
                    }
                    assert forall|id: u32| #[trigger] state.players@.contains_key(id) implies state.players@[id].is_bot by {
                        if id != nid {
                            assert(before.players@.contains_key(id));
                        }
                    }
                    let cell = before.placement@.free.last();
                    assert(before.placement@.free.contains(cell));
                    assert((cell as int) < n);
                    assert forall|id: u32| #[trigger] state.players@.contains_key(id) implies state.players@[id]
                        == fresh_player(id, state.players@[id].cell_index as usize, true) by {
                        if id != nid {
                            assert(before.players@.contains_key(id));
                        }
                    }
                    assert forall|k: int| 0 <= k < state.bots.bots@.len() implies #[trigger] state.bots.bots@[k].player_id
                        == k + 1 by {
                        if k < before.bots.bots@.len() {
                            assert(state.bots.bots@.drop_last()[k] == state.bots.bots@[k]);
                            assert(before.bots.bots@[k].player_id == k + 1);
                        }
                    }
                } else {
                    assert(state.players@ == before.players@);
                    assert(state.bots.bots@ == before.bots.bots@);
                }
            }
            i = i + 1;
        }
        state
    }

    /// The players with, for each, the number of its balls still in deep
    /// space, given the owners of the balls in flight. Every player is listed
    /// once, in the registry's own (unspecified) order.
    pub fn players_state(&self, ball_owners: &Vec<u32>) -> (r: Vec<PlayerStatus>)
        requires
            self.wf(),
            ball_owners@.len() <= u32::MAX,
        ensures
            is_players_state(self.players@, ball_owners@, r@),
    {
        let counts = count_by_owner(ball_owners);
        let mut out: Vec<PlayerStatus> = Vec::new();
        let ghost m = self.players@;
        for entry in it: self.players.iter()
            invariant
                self.wf(),
                m == self.players@,
                out@.len() == it.index(),
                it.seq() == crate::state::spec_players_iter(&self.players).remaining(),
                it.seq().no_duplicates(),
                it.seq().len() == m.dom().len(),
                forall|k: u32| #[trigger]
                    counts@.contains_key(k) <==> count_owned(ball_owners@, k) > 0,
                forall|k: u32| #[trigger]
                    counts@.contains_key(k) ==> counts@[k] == count_owned(ball_owners@, k),
                forall|i: int|
                    #![trigger out@[i]]
                    0 <= i < out@.len() ==> {
                        &&& out@[i].player == *it.seq()[i].1
                        &&& out@[i].player.id == *it.seq()[i].0
                        &&& out@[i].balls_in_flight == count_owned(ball_owners@, out@[i].player.id)
                    },
        {
            let (id, p) = entry;
            let c: u32 = match counts.get(id) {
                Some(c) => *c,
                None => 0,
            };
            proof {
                let v = it.seq();
                let k = it.index();
                assert(entry == v[k]);
                assert(m.contains_key(*v[k].0) && m[*v[k].0] == *v[k].1);
            }
            out.push(PlayerStatus { player: *p, balls_in_flight: c });
        }
        proof {
            let v = crate::state::spec_players_iter(&self.players).remaining();
            assert forall|i: int, j: int|
                0 <= i < out@.len() && 0 <= j < out@.len() && i != j implies out@[i].player.id
                != out@[j].player.id by {
                if out@[i].player.id == out@[j].player.id {
                    assert(*v[i].0 == *v[j].0);
                    assert(*v[i].1 == m[*v[i].0]);
                    assert(*v[j].1 == m[*v[j].0]);
                    assert(v[i] == v[j]);
                }
            }
            assert forall|id: u32| m.contains_key(id) implies exists|i: int|
                0 <= i < out@.len() && out@[i].player.id == id by {
                assert(v.contains((&id, &m[id])));
                let i = choose|i: int| 0 <= i < v.len() && v[i] == (&id, &m[id]);
                assert(out@[i].player.id == id);
            }
        }
        out
    }
}

} // verus!
