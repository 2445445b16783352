use vstd::prelude::*;

use crate::player::Player;

verus! {

/// Colour of a ball whose owner is no longer in the game.
pub const UNKNOWN_OWNER_COLOR: u32 = 0xffffff;

/// Whether `player`'s portal may capture a ball owned by `ball_owner_id`:
/// paused players capture nothing, and bots let their own balls pass so
/// that they reach other players. Real players may catch their own balls.
pub fn may_capture(player: &Player, ball_owner_id: u32) -> (b: bool)
    ensures
        b == (!player.paused && !(player.is_bot && player.id == ball_owner_id)),
{
    !player.paused && !(player.is_bot && player.id == ball_owner_id)
}

/// The colour of the first player in `players` with id `owner_id`.
pub open spec fn owner_color_of(players: Seq<Player>, owner_id: u32) -> u32
    decreases players.len(),
{
    if players.len() == 0 {
        UNKNOWN_OWNER_COLOR
    } else if players[0].id == owner_id {
        players[0].color
    } else {
        owner_color_of(players.drop_first(), owner_id)
    }
}

/// The colour of a captured ball is that of the first player in the list
/// whose id is the ball's owner, wherever that player stands; the unknown
/// owner colour comes only when no player in the list has that id.
pub proof fn lemma_owner_color_is_first_match(players: Seq<Player>, owner_id: u32)
    ensures
        forall|i: int|
            0 <= i < players.len() && players[i].id == owner_id && (forall|j: int|
                0 <= j < i ==> players[j].id != owner_id) ==> owner_color_of(players, owner_id)
                == #[trigger] players[i].color,
        (forall|i: int| 0 <= i < players.len() ==> players[i].id != owner_id) ==> owner_color_of(
            players,
            owner_id,
        ) == UNKNOWN_OWNER_COLOR,
    decreases players.len(),
{
    if players.len() > 0 {
        let rest = players.drop_first();
        lemma_owner_color_is_first_match(rest, owner_id);
        assert forall|i: int|
            0 <= i < players.len() && players[i].id == owner_id && (forall|j: int|
                0 <= j < i ==> players[j].id != owner_id) implies owner_color_of(players, owner_id)
            == #[trigger] players[i].color by {
            if i > 0 {
                assert(players[0].id != owner_id);
                assert(rest[i - 1] == players[i]);
                assert forall|j: int| 0 <= j < i - 1 implies rest[j].id != owner_id by {
                    assert(rest[j] == players[j + 1]);
                }
            }
        }
        if forall|i: int| 0 <= i < players.len() ==> players[i].id != owner_id {
            assert(players[0].id != owner_id);
            assert forall|i: int| 0 <= i < rest.len() implies rest[i].id != owner_id by {
                assert(rest[i] == players[i + 1]);
            }
        }
    }
}

/// The colour a captured ball carries: its owner's, or white when the
/// owner has left.
pub fn owner_color(players: &Vec<Player>, owner_id: u32) -> (c: u32)
    ensures
        c == owner_color_of(players@, owner_id),
{
    let n = players.len();
    let mut i: usize = 0;
    assert(players@.skip(0) =~= players@);
    while i < n
        invariant
            n == players@.len(),
            i <= n,
            owner_color_of(players@, owner_id) == owner_color_of(players@.skip(i as int), owner_id),
        decreases n - i,
    {
        if players[i].id == owner_id {
            assert(players@.skip(i as int)[0] == players@[i as int]);
            return players[i].color;
        }
        assert(players@.skip(i as int).drop_first() =~= players@.skip(i + 1));
        i = i + 1;
    }
    assert(players@.skip(n as int) =~= Seq::<Player>::empty());
    UNKNOWN_OWNER_COLOR
}

/// Hands out ball ids, counting from 1 and wrapping around after the
/// largest 32-bit value.
#[derive(Clone, Copy, Debug, PartialEq, Eq, Structural)]
pub struct BallIds {
    pub next_ball_id: u32,
}

impl BallIds {
    pub fn new() -> (ids: Self)
        ensures
            ids.next_ball_id == 1,
    {
        BallIds { next_ball_id: 1 }
    }

    /// The next ball id.
    pub fn allocate(&mut self) -> (id: u32)
        ensures
            id == old(self).next_ball_id,
            final(self).next_ball_id == if old(self).next_ball_id == u32::MAX {
                0
            } else {
                (old(self).next_ball_id + 1) as u32
            },
    {
        let id = self.next_ball_id;
        self.next_ball_id = self.next_ball_id.wrapping_add(1);
        id
    }
}

} // verus!
