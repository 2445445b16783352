use vstd::prelude::*;

use crate::text::{decimal, decimal_width2, push_decimal, push_decimal_width2};

verus! {

/// Most player rows the HUD shows.
pub const MAX_VISIBLE_PLAYERS: usize = 20;

/// Status-dot colour while connected.
pub const STATUS_CONNECTED: u32 = 0x44ff44;

/// Status-dot colour while connecting.
pub const STATUS_CONNECTING: u32 = 0xffaa00;

/// Status-dot colour while disconnected or after a protocol mismatch.
pub const STATUS_DISCONNECTED: u32 = 0xff4444;

/// State of the connection to the server, as the client shows it.
#[derive(Clone, Copy, Debug, PartialEq, Eq, Structural)]
pub enum ConnectionState {
    Connecting,
    Connected,
    Disconnected,
}

/// The colour (`0xRRGGBB`) of the connection status dot. A protocol
/// mismatch shows as disconnected whatever the state.
pub fn connection_status_hex(state: ConnectionState, protocol_mismatch: bool) -> (c: u32)
    ensures
        c == if protocol_mismatch {
            STATUS_DISCONNECTED
        } else {
            match state {
                ConnectionState::Connected => STATUS_CONNECTED,
                ConnectionState::Connecting => STATUS_CONNECTING,
                ConnectionState::Disconnected => STATUS_DISCONNECTED,
            }
        },
{
    if protocol_mismatch {
        return STATUS_DISCONNECTED;
    }
    match state {
        ConnectionState::Connected => STATUS_CONNECTED,
        ConnectionState::Connecting => STATUS_CONNECTING,
        ConnectionState::Disconnected => STATUS_DISCONNECTED,
    }
}

/// A player as the client's player list shows it.
#[derive(Clone, Copy, Debug, PartialEq, Eq, Structural)]
pub struct PlayerRow {
    pub id: u32,
    pub cell_index: u32,
    pub color: u32,
    pub paused: bool,
    pub balls_produced: u32,
    pub balls_in_flight: u32,
}

/// Whether player `a` comes before player `b` in the list: the local
/// player first, then by id; players with the same key keep their order.
pub open spec fn key_less(self_id: u32, a: PlayerRow, b: PlayerRow) -> bool {
    let fa = a.id != self_id;
    let fb = b.id != self_id;
    (!fa && fb) || (fa == fb && a.id < b.id)
}

/// Whether `ps[i]` is listed before `ps[j]`.
pub open spec fn listed_before(self_id: u32, ps: Seq<PlayerRow>, i: int, j: int) -> bool {
    key_less(self_id, ps[i], ps[j]) || (!key_less(self_id, ps[j], ps[i]) && i < j)
}

/// `order` lists every position of `ps` once, in list order.
pub open spec fn is_display_order(self_id: u32, ps: Seq<PlayerRow>, order: Seq<usize>) -> bool {
    &&& order.len() == ps.len()
    &&& forall|k: int| 0 <= k < order.len() ==> (order[k] as int) < ps.len()
    &&& order.no_duplicates()
    &&& forall|a: int, b: int|
        0 <= a < b < order.len() ==> listed_before(self_id, ps, order[a] as int, order[b] as int)
}

/// The positions of the players in the order the list shows them: the
/// local player first, the others by ascending id (a stable sort).
pub fn display_order(self_id: u32, players: &Vec<PlayerRow>) -> (order: Vec<usize>)
    ensures
        is_display_order(self_id, players@, order@),
{
    let ghost ps = players@;
    let n = players.len();
    let mut order: Vec<usize> = Vec::new();
    let mut i: usize = 0;
    while i < n
        invariant
            n == ps.len(),
            ps == players@,
            i <= n,
            order@.len() == i,
            forall|k: int| 0 <= k < order@.len() ==> (order@[k] as int) < i,
            order@.no_duplicates(),
            forall|a: int, b: int|
                0 <= a < b < order@.len() ==> listed_before(
                    self_id,
                    ps,
                    order@[a] as int,
                    order@[b] as int,
                ),
        decreases n - i,
    {
        let p = players[i];
        let fp = p.id != self_id;
        let mut pos: usize = 0;
        while pos < order.len()
            invariant
                n == ps.len(),
                ps == players@,
                p == ps[i as int],
                fp == (p.id != self_id),
                i < n,
                pos <= order@.len(),
                order@.len() == i,
                forall|k: int| 0 <= k < order@.len() ==> (order@[k] as int) < i,
                forall|k: int| 0 <= k < pos ==> !key_less(self_id, p, ps[order@[k] as int]),
            ensures
                pos <= order@.len(),
                forall|k: int| 0 <= k < pos ==> !key_less(self_id, p, ps[order@[k] as int]),
                pos < order@.len() ==> key_less(self_id, p, ps[order@[pos as int] as int]),
            decreases order@.len() - pos,
        {
            let q = players[order[pos]];
            let fq = q.id != self_id;
            if (!fp && fq) || (fp == fq && p.id < q.id) {
                break;
            }
            pos = pos + 1;
        }
        let ghost old_order = order@;
        proof {
            if pos < old_order.len() {
                assert(key_less(self_id, p, ps[old_order[pos as int] as int]));
            }
        }
        order.insert(pos, i);
        proof {
            let o = order@;
            assert(o == old_order.insert(pos as int, i));
            assert forall|k: int| 0 <= k < o.len() implies (o[k] as int) < i + 1 by {
                if k < pos {
                    assert(o[k] == old_order[k]);
                } else if k > pos {
                    assert(o[k] == old_order[k - 1]);
                }
            }
            assert forall|a: int, b: int| 0 <= a < o.len() && 0 <= b < o.len() && a != b implies o[a]
                != o[b] by {
                let la = if a < pos { a } else { a - 1 };
                let lb = if b < pos { b } else { b - 1 };
                if a != pos && b != pos {
                    assert(o[a] == old_order[la] && o[b] == old_order[lb]);
                } else if a == pos {
                    assert(o[b] == old_order[lb]);
                } else {
                    assert(o[a] == old_order[la]);
                }
            }
            assert forall|a: int, b: int| 0 <= a < b < o.len() implies listed_before(
                self_id,
                ps,
                o[a] as int,
                o[b] as int,
            ) by {
                if b < pos {
                    assert(o[a] == old_order[a] && o[b] == old_order[b]);
                } else if a > pos {
                    assert(o[a] == old_order[a - 1] && o[b] == old_order[b - 1]);
                } else if a < pos && b > pos {
                    assert(o[a] == old_order[a] && o[b] == old_order[b - 1]);
                } else if a == pos {
                    // the new player is placed before all later entries
                    assert(o[b] == old_order[b - 1]);
                    assert(key_less(self_id, p, ps[old_order[pos as int] as int]));
                    if b - 1 > pos {
                        assert(listed_before(self_id, ps, old_order[pos as int] as int, old_order[b - 1] as int));
                    }
                } else {
                    // b == pos: an earlier entry has a key no greater and a smaller position
                    assert(o[a] == old_order[a]);
                    assert(!key_less(self_id, p, ps[old_order[a] as int]));
                }
            }
        }
        i = i + 1;
    }
    order
}


/// Number of players in `ps` that are not paused.
pub open spec fn active_count(ps: Seq<PlayerRow>) -> nat
    decreases ps.len(),
{
    if ps.len() == 0 {
        0
    } else {
        active_count(ps.drop_last()) + if ps.last().paused { 0nat } else { 1nat }
    }
}

proof fn lemma_active_count_bounded(ps: Seq<PlayerRow>)
    ensures
        active_count(ps) <= ps.len(),
    decreases ps.len(),
{
    if ps.len() > 0 {
        lemma_active_count_bounded(ps.drop_last());
    }
}

/// The summary line: active players over all players, as `"2/3"`.
pub open spec fn summary_text(ps: Seq<PlayerRow>) -> Seq<char> {
    decimal(active_count(ps)) + "/"@ + decimal(ps.len())
}

/// The active count is the number of players that are not paused; it does
/// not look at ball counts.
pub proof fn lemma_active_count_is_unpaused_players(ps: Seq<PlayerRow>)
    ensures
        active_count(ps) == ps.filter(|p: PlayerRow| !p.paused).len(),
    decreases ps.len(),
{
    reveal_with_fuel(Seq::filter, 1);
    if ps.len() > 0 {
        lemma_active_count_is_unpaused_players(ps.drop_last());
    }
}

/// The summary line reads "unpaused players / all players".
pub proof fn lemma_summary_counts_unpaused_players(ps: Seq<PlayerRow>)
    ensures
        summary_text(ps) == decimal(ps.filter(|p: PlayerRow| !p.paused).len()) + "/"@ + decimal(
            ps.len(),
        ),
{
    lemma_active_count_is_unpaused_players(ps);
}

/// A player's row: `*` for the local player (a space otherwise), the id
/// padded to two digits, then balls in flight over balls produced, as
/// `"*02 3/9"`.
pub open spec fn row_text(self_id: u32, p: PlayerRow) -> Seq<char> {
    (if p.id == self_id { "*"@ } else { " "@ }) + decimal_width2(p.id as nat) + " "@ + decimal(
        p.balls_in_flight as nat,
    ) + "/"@ + decimal(p.balls_produced as nat)
}

/// The overflow line shown when more players exist than rows, as `"... 21"`.
pub open spec fn more_text(total: nat) -> Seq<char> {
    "... "@ + decimal(total)
}

/// The summary line of the player list.
pub fn players_summary_text(players: &Vec<PlayerRow>) -> (s: String)
    ensures
        s@ == summary_text(players@),
{
    let n = players.len();
    let mut active: usize = 0;
    let mut i: usize = 0;
    while i < n
        invariant
            n == players@.len(),
            i <= n,
            active == active_count(players@.take(i as int)),
        decreases n - i,
    {
        proof {
            assert(players@.take(i + 1).drop_last() =~= players@.take(i as int));
            lemma_active_count_bounded(players@.take(i as int));
        }
        if !players[i].paused {
            active = active + 1;
        }
        i = i + 1;
    }
    assert(players@.take(n as int) =~= players@);
    let mut out = String::new();
    push_decimal(&mut out, active as u64);
    out.append("/");
    push_decimal(&mut out, n as u64);
    assert(out@ =~= summary_text(players@));
    out
}

/// The row text of one player.
pub fn player_row_text(self_id: u32, p: &PlayerRow) -> (s: String)
    ensures
        s@ == row_text(self_id, *p),
{
    let mut out = String::new();
    if p.id == self_id {
        out.append("*");
    } else {
        out.append(" ");
    }
    push_decimal_width2(&mut out, p.id as u64);
    out.append(" ");
    push_decimal(&mut out, p.balls_in_flight as u64);
    out.append("/");
    push_decimal(&mut out, p.balls_produced as u64);
    assert(out@ =~= row_text(self_id, *p));
    out
}

/// The overflow line, present only when there are more players than rows.
pub fn more_players_text(total: usize) -> (s: Option<String>)
    ensures
        match s {
            Some(t) => total > MAX_VISIBLE_PLAYERS && t@ == more_text(total as nat),
            None => total <= MAX_VISIBLE_PLAYERS,
        },
{
    if total > MAX_VISIBLE_PLAYERS {
        let mut out = String::new();
        out.append("... ");
        push_decimal(&mut out, total as u64);
        assert(out@ =~= more_text(total as nat));
        Some(out)
    } else {
        None
    }
}

/// What the player list shows: the summary line, the visible rows (at most
/// `MAX_VISIBLE_PLAYERS`, in list order, each with the position of its
/// player) and the overflow line.
pub struct PlayersPanel {
    pub summary: String,
    /// Positions, in the input, of the players shown, in row order.
    pub shown: Vec<usize>,
    pub rows: Vec<String>,
    pub more: Option<String>,
}

/// Lays out the player list.
pub fn players_panel(self_id: u32, players: &Vec<PlayerRow>) -> (panel: PlayersPanel)
    ensures
        panel.summary@ == summary_text(players@),
        ({
            let visible = if players@.len() < MAX_VISIBLE_PLAYERS {
                players@.len() as int
            } else {
                MAX_VISIBLE_PLAYERS as int
            };
            &&& panel.shown@.len() == visible
            &&& panel.rows@.len() == visible
            &&& exists|order: Seq<usize>|
                #[trigger] is_display_order(self_id, players@, order) && panel.shown@
                    == order.take(visible)
            &&& forall|k: int|
                0 <= k < visible ==> (panel.shown@[k] as int) < players@.len()
                    && #[trigger] panel.rows@[k]@ == row_text(
                    self_id,
                    players@[panel.shown@[k] as int],
                )
        }),
        match panel.more {
            Some(t) => players@.len() > MAX_VISIBLE_PLAYERS && t@ == more_text(players@.len()),
            None => players@.len() <= MAX_VISIBLE_PLAYERS,
        },
{
    let order = display_order(self_id, players);
    let n = players.len();
    let visible = if n < MAX_VISIBLE_PLAYERS { n } else { MAX_VISIBLE_PLAYERS };
    let mut shown: Vec<usize> = Vec::new();
    let mut rows: Vec<String> = Vec::new();
    let mut k: usize = 0;
    while k < visible
        invariant
            n == players@.len(),
            order@.len() == n,
            visible <= n,
            is_display_order(self_id, players@, order@),
            k <= visible,
            shown@ == order@.take(k as int),
            rows@.len() == k,
            forall|j: int|
                0 <= j < k ==> (shown@[j] as int) < players@.len() && #[trigger] rows@[j]@
                    == row_text(self_id, players@[shown@[j] as int]),
        decreases visible - k,
    {
        let idx = order[k];
        shown.push(idx);
        let row = player_row_text(self_id, &players[idx]);
        rows.push(row);
        k = k + 1;
        assert(shown@ =~= order@.take(k as int));
    }
    PlayersPanel {
        summary: players_summary_text(players),
        shown,
        rows,
        more: more_players_text(n),
    }
}

/// The server line of the info panel: `"Server: -"` before the server
/// has told its version, `"Server: v<version>"` after.
pub fn server_version_text(server_version: &str) -> (s: String)
    ensures
        s@ == if server_version@.len() == 0 {
            "Server: -"@
        } else {
            "Server: v"@ + server_version@
        },
{
    if server_version.is_empty() {
        String::from_str("Server: -")
    } else {
        let mut out = String::from_str("Server: v");
        out.append(server_version);
        out
    }
}

/// The bot line of the info panel.
pub fn bot_status_text(bot_enabled: bool) -> (s: String)
    ensures
        s@ == if bot_enabled {
            "Bot: ON"@
        } else {
            "Bot: OFF"@
        },
{
    if bot_enabled {
        String::from_str("Bot: ON")
    } else {
        String::from_str("Bot: OFF")
    }
}

/// The multiplier that spreads the player-list signature.
pub const SIGNATURE_MULTIPLIER: u64 = 0x9e37_79b1_85eb_ca87;

/// What one player adds to the signature: its id, colour, paused flag and
/// ball counts, each shifted into its own bit range.
pub open spec fn signature_terms(p: PlayerRow) -> int {
    p.id as int + p.color as int * 0x100 + (if p.paused { 1int } else { 0int }) * 0x100_0000_0000
        + p.balls_in_flight as int * 0x10_0000 + p.balls_produced as int * 0x1000_0000
}

/// The signature of the player list as seen by player `self_id`, computed
/// modulo 2^64; the list is redrawn only when it changes.
pub open spec fn signature_of(self_id: u32, ps: Seq<PlayerRow>) -> int
    decreases ps.len(),
{
    if ps.len() == 0 {
        (self_id as int * SIGNATURE_MULTIPLIER as int) % 0x1_0000_0000_0000_0000
    } else {
        (signature_of(self_id, ps.drop_last()) * SIGNATURE_MULTIPLIER as int + signature_terms(
            ps.last(),
        )) % 0x1_0000_0000_0000_0000
    }
}

proof fn lemma_wrapping_add_step(x: int, y: int)
    requires
        0 <= y < 0x1_0000_0000_0000_0000,
    ensures
        ((x % 0x1_0000_0000_0000_0000) + y) % 0x1_0000_0000_0000_0000 == (x + y)
            % 0x1_0000_0000_0000_0000,
{
    vstd::arithmetic::div_mod::lemma_add_mod_noop(x, y, 0x1_0000_0000_0000_0000);
    vstd::arithmetic::div_mod::lemma_mod_twice(y, 0x1_0000_0000_0000_0000);
    vstd::arithmetic::div_mod::lemma_small_mod(y as nat, 0x1_0000_0000_0000_0000);
    vstd::arithmetic::div_mod::lemma_mod_twice(x, 0x1_0000_0000_0000_0000);
    vstd::arithmetic::div_mod::lemma_add_mod_noop(x % 0x1_0000_0000_0000_0000, y, 0x1_0000_0000_0000_0000);
}

/// Wrapping addition keeps tracking a sum taken modulo 2^64.
proof fn lemma_wrapping_add_tracks(x: u64, y: u64, a: int)
    requires
        x == a % 0x1_0000_0000_0000_0000,
    ensures
        vstd::wrapping::u64_specs::wrapping_add(x, y) == (a + y) % 0x1_0000_0000_0000_0000,
{
    lemma_wrapping_add_step(a, y as int);
    let m: int = 0x1_0000_0000_0000_0000;
    if x + y > u64::MAX {
        vstd::arithmetic::div_mod::lemma_mod_sub_multiples_vanish((x + y) as int, m);
        vstd::arithmetic::div_mod::lemma_small_mod((x + y - m) as nat, m as nat);
    } else {
        vstd::arithmetic::div_mod::lemma_small_mod((x + y) as nat, m as nat);
    }
}

/// One step of the signature loop: the wrapped products and sums equal the
/// next signature value.
proof fn lemma_signature_step(
    sig: u64,
    p: PlayerRow,
    paused_bits: u64,
    t1: u64,
    t2: u64,
    t3: u64,
    t4: u64,
    t5: u64,
    t6: u64,
)
    requires
        paused_bits == if p.paused { 0x100_0000_0000u64 } else { 0u64 },
        t1 == vstd::wrapping::u64_specs::wrapping_mul(sig, SIGNATURE_MULTIPLIER),
        t2 == vstd::wrapping::u64_specs::wrapping_add(t1, p.id as u64),
        t3 == vstd::wrapping::u64_specs::wrapping_add(t2, (p.color * 0x100) as u64),
        t4 == vstd::wrapping::u64_specs::wrapping_add(t3, paused_bits),
        t5 == vstd::wrapping::u64_specs::wrapping_add(t4, (p.balls_in_flight * 0x10_0000) as u64),
        t6 == vstd::wrapping::u64_specs::wrapping_add(t5, (p.balls_produced * 0x1000_0000) as u64),
    ensures
        t6 == (sig as int * SIGNATURE_MULTIPLIER as int + signature_terms(p))
            % 0x1_0000_0000_0000_0000,
{
    let a0 = sig as int * SIGNATURE_MULTIPLIER as int;
    let a1 = a0 + p.id as int;
    lemma_wrapping_add_tracks(t1, p.id as u64, a0);
    let a2 = a1 + (p.color as int * 0x100);
    lemma_wrapping_add_tracks(t2, (p.color * 0x100) as u64, a1);
    let a3 = a2 + paused_bits;
    lemma_wrapping_add_tracks(t3, paused_bits, a2);
    let a4 = a3 + (p.balls_in_flight as int * 0x10_0000);
    lemma_wrapping_add_tracks(t4, (p.balls_in_flight * 0x10_0000) as u64, a3);
    lemma_wrapping_add_tracks(t5, (p.balls_produced * 0x1000_0000) as u64, a4);
}

/// Change signature of the player list: equal lists give equal signatures,
/// so the HUD only rebuilds the list when the signature moves.
pub fn players_signature(self_id: u32, players: &Vec<PlayerRow>) -> (sig: u64)
    ensures
        sig == signature_of(self_id, players@),
{
    let mut sig = (self_id as u64).wrapping_mul(SIGNATURE_MULTIPLIER);
    let n = players.len();
    let mut i: usize = 0;
    assert(players@.take(0) =~= Seq::<PlayerRow>::empty());
    while i < n
        invariant
            n == players@.len(),
            i <= n,
            sig == signature_of(self_id, players@.take(i as int)),
        decreases n - i,
    {
        let p = players[i];
        let paused_bits: u64 = if p.paused { 0x100_0000_0000 } else { 0 };
        let t1 = sig.wrapping_mul(SIGNATURE_MULTIPLIER);
        let t2 = t1.wrapping_add(p.id as u64);
        let t3 = t2.wrapping_add((p.color as u64) * 0x100);
        let t4 = t3.wrapping_add(paused_bits);
        let t5 = t4.wrapping_add((p.balls_in_flight as u64) * 0x10_0000);
        let t6 = t5.wrapping_add((p.balls_produced as u64) * 0x1000_0000);
        proof {
            lemma_signature_step(sig, p, paused_bits, t1, t2, t3, t4, t5, t6);
            assert(players@.take(i + 1).drop_last() =~= players@.take(i as int));
            assert(players@.take(i + 1).last() == p);
        }
        sig = t6;
        i = i + 1;
    }
    assert(players@.take(n as int) =~= players@);
    sig
}

/// The HUD's toggles.
#[derive(Clone, Copy, Debug, PartialEq, Eq)]
pub struct HudUiState {
    pub info_visible: bool,
    pub bot_enabled: bool,
}

impl HudUiState {
    /// Both toggles off.
    pub fn new() -> (s: Self)
        ensures
            !s.info_visible && !s.bot_enabled,
    {
        HudUiState { info_visible: false, bot_enabled: false }
    }

    /// A press of the info button flips the info panel.
    pub fn press_info(&mut self)
        ensures
            final(self).info_visible == !old(self).info_visible,
            final(self).bot_enabled == old(self).bot_enabled,
    {
        self.info_visible = !self.info_visible;
    }

    /// A press of the bot button flips the bot.
    pub fn press_bot(&mut self)
        ensures
            final(self).bot_enabled == !old(self).bot_enabled,
            final(self).info_visible == old(self).info_visible,
    {
        self.bot_enabled = !self.bot_enabled;
    }
}

/// The hit counter's text.
pub fn hit_count_text(count: u32) -> (s: String)
    ensures
        s@ == decimal(count as nat),
{
    let mut out = String::new();
    push_decimal(&mut out, count as u64);
    assert(out@ =~= decimal(count as nat));
    out
}

/// What the client shows of its connection: the state, whether the server
/// speaks another protocol version, and the status label.
pub struct ConnectionStatus {
    pub state: ConnectionState,
    pub protocol_mismatch: bool,
    pub label: String,
}

/// The label after a protocol mismatch, as `"protocol mismatch 3!=2"`.
pub open spec fn mismatch_label(server: u32, client: u32) -> Seq<char> {
    "protocol mismatch "@ + decimal(server as nat) + "!="@ + decimal(client as nat)
}

impl ConnectionStatus {
    /// Before the first connection.
    pub fn new() -> (s: Self)
        ensures
            s.state == ConnectionState::Connecting,
            !s.protocol_mismatch,
            s.label@ == "connecting"@,
    {
        ConnectionStatus {
            state: ConnectionState::Connecting,
            protocol_mismatch: false,
            label: String::from_str("connecting"),
        }
    }

    /// The socket opened: connected, and an old mismatch no longer applies.
    pub fn on_connected(&mut self)
        ensures
            final(self).state == ConnectionState::Connected,
            !final(self).protocol_mismatch,
            final(self).label@ == "connected"@,
    {
        self.state = ConnectionState::Connected;
        self.protocol_mismatch = false;
        self.label = String::from_str("connected");
    }

    /// The socket closed or failed.
    pub fn on_disconnected(&mut self)
        ensures
            final(self).state == ConnectionState::Disconnected,
            final(self).protocol_mismatch == old(self).protocol_mismatch,
            final(self).label@ == "disconnected"@,
    {
        self.state = ConnectionState::Disconnected;
        self.label = String::from_str("disconnected");
    }

    /// The server greeted with another protocol version.
    pub fn on_protocol_mismatch(&mut self, server: u32, client: u32)
        ensures
            final(self).state == old(self).state,
            final(self).protocol_mismatch,
            final(self).label@ == mismatch_label(server, client),
    {
        self.protocol_mismatch = true;
        let mut label = String::from_str("protocol mismatch ");
        push_decimal(&mut label, server as u64);
        label.append("!=");
        push_decimal(&mut label, client as u64);
        assert(label@ =~= mismatch_label(server, client));
        self.label = label;
    }

    /// A welcome parsed: the protocol is valid for this session.
    pub fn on_welcome(&mut self)
        ensures
            final(self).state == old(self).state,
            !final(self).protocol_mismatch,
            final(self).label@ == old(self).label@,
    {
        self.protocol_mismatch = false;
    }

    /// The status dot's colour.
    pub fn status_hex(&self) -> (c: u32)
        ensures
            c == if self.protocol_mismatch {
                STATUS_DISCONNECTED
            } else {
                match self.state {
                    ConnectionState::Connected => STATUS_CONNECTED,
                    ConnectionState::Connecting => STATUS_CONNECTING,
                    ConnectionState::Disconnected => STATUS_DISCONNECTED,
                }
            },
    {
        connection_status_hex(self.state, self.protocol_mismatch)
    }
}

/// The colour of the first player in `ps` with id `id`, if any.
pub open spec fn color_of_player(ps: Seq<PlayerRow>, id: u32) -> Option<u32>
    decreases ps.len(),
{
    if ps.len() == 0 {
        None
    } else if ps[0].id == id {
        Some(ps[0].color)
    } else {
        color_of_player(ps.drop_first(), id)
    }
}

/// The colour of player `id` in the list (the local player's own colour,
/// used for its balls and its marker).
pub fn find_player_color(players: &Vec<PlayerRow>, id: u32) -> (c: Option<u32>)
    ensures
        c == color_of_player(players@, id),
{
    let n = players.len();
    let mut i: usize = 0;
    assert(players@.skip(0) =~= players@);
    while i < n
        invariant
            n == players@.len(),
            i <= n,
            color_of_player(players@, id) == color_of_player(players@.skip(i as int), id),
        decreases n - i,
    {
        if players[i].id == id {
            assert(players@.skip(i as int)[0] == players@[i as int]);
            return Some(players[i].color);
        }
        assert(players@.skip(i as int).drop_first() =~= players@.skip(i + 1));
        i = i + 1;
    }
    assert(players@.skip(n as int) =~= Seq::<PlayerRow>::empty());
    None
}
} // verus!
