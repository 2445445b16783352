use rand_chacha::ChaCha8Rng;
use vstd::prelude::*;

use crate::player::Player;
use crate::rng::{draw_u64, random_below};

verus! {

/// How a bot paces itself when it sends a captured ball back.
#[derive(Clone, Copy, Debug, PartialEq, Eq, Structural)]
pub enum BotPersonality {
    /// Sends the ball back quickly.
    Eager,
    /// Takes its time before sending.
    Relaxed,
    /// Unpredictable timing and velocity.
    Chaotic,
}

/// The personality that a draw from `0..3` selects.
pub open spec fn personality_for_draw(draw: u32) -> BotPersonality {
    if draw == 0 {
        BotPersonality::Eager
    } else if draw == 1 {
        BotPersonality::Relaxed
    } else {
        BotPersonality::Chaotic
    }
}

impl BotPersonality {
    /// The personality selected by a uniform draw from `0..3`.
    pub fn from_draw(draw: u32) -> (p: BotPersonality)
        ensures
            p == personality_for_draw(draw),
    {
        match draw {
            0 => BotPersonality::Eager,
            1 => BotPersonality::Relaxed,
            _ => BotPersonality::Chaotic,
        }
    }

    /// Selects a personality at random, each with equal chance.
    pub fn random(rng: &mut ChaCha8Rng) -> (p: BotPersonality)
        ensures
            exists|draw: u32| draw < 3 && p == personality_for_draw(draw),
    {
        let draw = random_below(rng, 3);
        BotPersonality::from_draw(draw)
    }
}

/// Configuration for bots.
#[derive(Clone, Debug)]
pub struct BotConfig {
    /// Number of bots to spawn.
    pub count: usize,
    /// Whether bots send initial balls to seed the game.
    pub send_initial_balls: bool,
}

impl Default for BotConfig {
    fn default() -> (c: Self)
        ensures
            c.count == 3,
            c.send_initial_balls,
    {
        BotConfig { count: 3, send_initial_balls: true }
    }
}

/// A bot seat: the player it plays and how it plays. The bot's ball queue
/// and timers are kept by the simulation, keyed by `player_id`.
#[derive(Clone, Copy, Debug, PartialEq, Eq, Structural)]
pub struct BotPlayer {
    /// The player id (the same as in the game's player registry).
    pub player_id: u32,
    pub personality: BotPersonality,
    /// The 64-bit draw that the bot's first-ball delay is made from (the
    /// delay itself is a real number, computed by the simulation).
    pub first_ball_draw: u64,
}

/// Whether the bot does not play `player_id`.
pub open spec fn plays_other(player_id: u32) -> spec_fn(BotPlayer) -> bool {
    |b: BotPlayer| b.player_id != player_id
}

/// Whether some bot in `bots` plays `player_id`.
pub open spec fn has_bot(bots: Seq<BotPlayer>, player_id: u32) -> bool {
    exists|i: int| 0 <= i < bots.len() && bots[i].player_id == player_id
}

/// After a bot is removed, no bot plays its player id any more, and every
/// other player id keeps exactly the bot status it had.
pub proof fn lemma_remove_bot_only_removes_that_player(bots: Seq<BotPlayer>, player_id: u32)
    ensures
        !has_bot(bots.filter(plays_other(player_id)), player_id),
        forall|other: u32|
            other != player_id ==> (has_bot(bots.filter(plays_other(player_id)), other)
                <==> has_bot(bots, other)),
{
    let kept = bots.filter(plays_other(player_id));
    if has_bot(kept, player_id) {
        let i = choose|i: int| 0 <= i < kept.len() && kept[i].player_id == player_id;
        bots.lemma_filter_pred(plays_other(player_id), i);
    }
    assert forall|other: u32| other != player_id implies (has_bot(kept, other) <==> has_bot(
        bots,
        other,
    )) by {
        if has_bot(kept, other) {
            let i = choose|i: int| 0 <= i < kept.len() && kept[i].player_id == other;
            assert(kept.contains(kept[i]));
            bots.lemma_filter_contains_rev(plays_other(player_id), kept[i]);
            let j = choose|j: int| 0 <= j < bots.len() && bots[j] == kept[i];
            assert(bots[j].player_id == other);
        }
        if has_bot(bots, other) {
            let j = choose|j: int| 0 <= j < bots.len() && bots[j].player_id == other;
            bots.lemma_filter_contains(plays_other(player_id), j);
            let i = choose|i: int| 0 <= i < kept.len() && kept[i] == bots[j];
            assert(kept[i].player_id == other);
        }
    }
}

/// A newly added bot's player id is a bot's, and the others keep their status.
pub proof fn lemma_add_bot_marks_player(bots: Seq<BotPlayer>, bot: BotPlayer)
    ensures
        has_bot(bots.push(bot), bot.player_id),
        forall|other: u32|
            other != bot.player_id ==> (has_bot(bots.push(bot), other) <==> has_bot(bots, other)),
{
    let pushed = bots.push(bot);
    assert(pushed[bots.len() as int] == bot);
    assert forall|other: u32| other != bot.player_id implies (has_bot(pushed, other) <==> has_bot(
        bots,
        other,
    )) by {
        if has_bot(bots, other) {
            let j = choose|j: int| 0 <= j < bots.len() && bots[j].player_id == other;
            assert(pushed[j] == bots[j]);
        }
        if has_bot(pushed, other) {
            let j = choose|j: int| 0 <= j < pushed.len() && pushed[j].player_id == other;
            assert(bots[j] == pushed[j]);
        }
    }
}

/// The roster of bot players.
#[derive(Debug)]
pub struct BotManager {
    /// The bots, in the order they were added.
    pub bots: Vec<BotPlayer>,
}

impl BotManager {
    pub fn new() -> (m: Self)
        ensures
            m.bots@ == Seq::<BotPlayer>::empty(),
    {
        BotManager { bots: Vec::new() }
    }

    /// Adds a bot for `player`: draws its personality, then the draw its
    /// first-ball delay is made from, both from `rng` in that order. The
    /// personality is returned.
    pub fn add_bot(&mut self, player: &Player, rng: &mut ChaCha8Rng) -> (p: BotPersonality)
        ensures
            final(self).bots@ == old(self).bots@.push(
                BotPlayer {
                    player_id: player.id,
                    personality: p,
                    first_ball_draw: final(self).bots@.last().first_ball_draw,
                },
            ),
    {
        let personality = BotPersonality::random(rng);
        let first_ball_draw = draw_u64(rng);
        self.bots.push(BotPlayer { player_id: player.id, personality, first_ball_draw });
        personality
    }

    /// Removes every bot that plays `player_id`, keeping the order of the
    /// others.
    pub fn remove_bot(&mut self, player_id: u32)
        ensures
            final(self).bots@ == old(self).bots@.filter(plays_other(player_id)),
    {
        let mut kept: Vec<BotPlayer> = Vec::new();
        let n = self.bots.len();
        let mut i: usize = 0;
        while i < n
            invariant
                n == self.bots@.len(),
                self.bots@ == old(self).bots@,
                i <= n,
                kept@ == self.bots@.take(i as int).filter(plays_other(player_id)),
            decreases n - i,
        {
            let b = self.bots[i];
            proof {
                assert(self.bots@.take(i + 1).drop_last() =~= self.bots@.take(i as int));
                reveal_with_fuel(Seq::filter, 1);
            }
            if b.player_id != player_id {
                kept.push(b);
            }
            i = i + 1;
        }
        proof {
            assert(self.bots@.take(n as int) =~= self.bots@);
        }
        self.bots = kept;
    }

    /// Position of the first bot playing `player_id`.
    pub fn index_of(&self, player_id: u32) -> (idx: Option<usize>)
        ensures
            match idx {
                Some(i) => i < self.bots@.len() && self.bots@[i as int].player_id == player_id
                    && forall|j: int| 0 <= j < i ==> self.bots@[j].player_id != player_id,
                None => !has_bot(self.bots@, player_id),
            },
    {
        let n = self.bots.len();
        let mut i: usize = 0;
        while i < n
            invariant
                n == self.bots@.len(),
                i <= n,
                forall|j: int| 0 <= j < i ==> self.bots@[j].player_id != player_id,
            decreases n - i,
        {
            if self.bots[i].player_id == player_id {
                return Some(i);
            }
            i = i + 1;
        }
        None
    }

    /// Whether `player_id` belongs to a bot.
    pub fn is_bot(&self, player_id: u32) -> (b: bool)
        ensures
            b == has_bot(self.bots@, player_id),
    {
        self.index_of(player_id).is_some()
    }

    /// Number of bots.
    pub fn bot_count(&self) -> (n: usize)
        ensures
            n == self.bots@.len(),
    {
        self.bots.len()
    }

    /// The player ids of all bots, in roster order.
    pub fn bot_ids(&self) -> (ids: Vec<u32>)
        ensures
            ids@ == self.bots@.map_values(|b: BotPlayer| b.player_id),
    {
        let mut ids: Vec<u32> = Vec::new();
        let n = self.bots.len();
        let mut i: usize = 0;
        while i < n
            invariant
                n == self.bots@.len(),
                i <= n,
                ids@ == self.bots@.take(i as int).map_values(|b: BotPlayer| b.player_id),
            decreases n - i,
        {
            ids.push(self.bots[i].player_id);
            i = i + 1;
            assert(ids@ =~= self.bots@.take(i as int).map_values(|b: BotPlayer| b.player_id));
        }
        assert(self.bots@.take(n as int) =~= self.bots@);
        ids
    }

    /// The bots whose timers run this tick, in roster order: every bot
    /// while some real player is active, none otherwise (bots freeze while
    /// nobody real is playing).
    pub fn bots_to_tick(&self, has_active: bool) -> (r: Vec<BotPlayer>)
        ensures
            r@ == if has_active { self.bots@ } else { Seq::<BotPlayer>::empty() },
    {
        let mut r: Vec<BotPlayer> = Vec::new();
        if !has_active {
            return r;
        }
        let n = self.bots.len();
        let mut i: usize = 0;
        while i < n
            invariant
                n == self.bots@.len(),
                i <= n,
                r@ == self.bots@.take(i as int),
            decreases n - i,
        {
            r.push(self.bots[i]);
            i = i + 1;
            assert(r@ =~= self.bots@.take(i as int));
        }
        assert(self.bots@.take(n as int) =~= self.bots@);
        r
    }
}

impl Default for BotManager {
    fn default() -> (m: Self)
        ensures
            m.bots@ == Seq::<BotPlayer>::empty(),
    {
        Self::new()
    }
}

} // verus!
