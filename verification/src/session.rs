use vstd::prelude::*;

verus! {

/// Largest text frame a client may send, in bytes.
pub const MAX_TEXT_MSG_BYTES: usize = 1024;

/// Consecutive unparsable messages after which a client is disconnected.
pub const MAX_PARSE_ERRORS: u32 = 5;

/// Most set_paused messages a client may send per one-second window.
pub const MAX_SET_PAUSED_PER_SEC: u32 = 10;

/// Most activity heartbeats a client may send per one-second window.
pub const MAX_ACTIVITY_PER_SEC: u32 = 1;

/// The kinds of message a client sends.
#[derive(Clone, Copy, Debug, PartialEq, Eq, Structural)]
pub enum ClientMessageKind {
    BallEscaped,
    SetPaused,
    Activity,
}

/// What happened on a client connection.
#[derive(Clone, Copy, Debug, PartialEq, Eq, Structural)]
pub enum SessionEvent {
    /// A text frame of `byte_len` bytes arrived.
    Text { byte_len: usize },
    /// A text frame parsed as a message of `kind`; `window_expired` says
    /// whether a second or more has passed since that kind's rate window
    /// opened (the window then restarts now).
    Parsed { kind: ClientMessageKind, window_expired: bool },
    /// A text frame did not parse.
    ParseFailed,
    /// A binary frame arrived.
    Binary,
    /// The client closed the connection or the stream ended.
    Closed,
    /// A ping, pong or other control frame arrived.
    Control,
    /// Sending a message to the client failed or timed out.
    SendFailed,
    /// The game told this client to disconnect, or closed its channel.
    ServerDisconnect,
    /// The client fell behind on broadcasts and some were skipped.
    BroadcastLagged,
    /// The broadcast channel closed.
    BroadcastClosed,
}

/// What the connection handler does next.
#[derive(Clone, Copy, Debug, PartialEq, Eq, Structural)]
pub enum SessionAction {
    /// Parse the text frame.
    Parse,
    /// Validate the escape velocity and, if valid, forward the escape.
    ValidateBallEscaped,
    /// Forward the paused flag to the game.
    ForwardSetPaused,
    /// Forward the activity heartbeat to the game.
    ForwardActivity,
    /// Nothing to do; keep going.
    Continue,
    /// Close the connection and leave the game.
    Disconnect,
}

/// The per-connection counters that enforce the message policy.
#[derive(Clone, Copy, Debug, PartialEq, Eq, Structural)]
pub struct ClientSession {
    /// Most ball_escaped messages allowed per one-second window.
    pub max_ball_escaped_per_sec: u32,
    pub ball_escaped_count: u32,
    pub set_paused_count: u32,
    pub activity_count: u32,
    /// Consecutive messages that failed to parse.
    pub parse_error_count: u32,
}

/// A rate counter after one more message: restarted if its window expired.
pub open spec fn bumped(count: u32, window_expired: bool) -> int {
    (if window_expired { 0 } else { count as int }) + 1
}

/// The counter for `kind` in `s`.
pub open spec fn kind_count(s: ClientSession, kind: ClientMessageKind) -> u32 {
    match kind {
        ClientMessageKind::BallEscaped => s.ball_escaped_count,
        ClientMessageKind::SetPaused => s.set_paused_count,
        ClientMessageKind::Activity => s.activity_count,
    }
}

/// The per-window limit for `kind`.
pub open spec fn kind_limit(s: ClientSession, kind: ClientMessageKind) -> u32 {
    match kind {
        ClientMessageKind::BallEscaped => s.max_ball_escaped_per_sec,
        ClientMessageKind::SetPaused => MAX_SET_PAUSED_PER_SEC,
        ClientMessageKind::Activity => MAX_ACTIVITY_PER_SEC,
    }
}

/// What a message of `kind` within its limit leads to.
pub open spec fn forward_action(kind: ClientMessageKind) -> SessionAction {
    match kind {
        ClientMessageKind::BallEscaped => SessionAction::ValidateBallEscaped,
        ClientMessageKind::SetPaused => SessionAction::ForwardSetPaused,
        ClientMessageKind::Activity => SessionAction::ForwardActivity,
    }
}

/// What a message of `kind` over its limit leads to: an escape flood
/// disconnects, excess paused flags and heartbeats are dropped.
pub open spec fn over_limit_action(kind: ClientMessageKind) -> SessionAction {
    match kind {
        ClientMessageKind::BallEscaped => SessionAction::Disconnect,
        _ => SessionAction::Continue,
    }
}

/// The session after a parsed message of `kind`.
pub open spec fn after_parsed(s: ClientSession, kind: ClientMessageKind, window_expired: bool) -> ClientSession {
    let c = bumped(kind_count(s, kind), window_expired) as u32;
    match kind {
        ClientMessageKind::BallEscaped => ClientSession { ball_escaped_count: c, parse_error_count: 0, ..s },
        ClientMessageKind::SetPaused => ClientSession { set_paused_count: c, parse_error_count: 0, ..s },
        ClientMessageKind::Activity => ClientSession { activity_count: c, parse_error_count: 0, ..s },
    }
}

/// The policy as a transition: the next session state and the action.
pub open spec fn session_step(s: ClientSession, e: SessionEvent) -> (ClientSession, SessionAction) {
    match e {
        SessionEvent::Text { byte_len } => if byte_len > MAX_TEXT_MSG_BYTES {
            (s, SessionAction::Disconnect)
        } else {
            (s, SessionAction::Parse)
        },
        SessionEvent::Parsed { kind, window_expired } => {
            let s2 = after_parsed(s, kind, window_expired);
            if bumped(kind_count(s, kind), window_expired) > kind_limit(s, kind) {
                (s2, over_limit_action(kind))
            } else {
                (s2, forward_action(kind))
            }
        },
        SessionEvent::ParseFailed => {
            let s2 = ClientSession { parse_error_count: (s.parse_error_count + 1) as u32, ..s };
            if s.parse_error_count + 1 >= MAX_PARSE_ERRORS {
                (s2, SessionAction::Disconnect)
            } else {
                (s2, SessionAction::Continue)
            }
        },
        SessionEvent::Control | SessionEvent::BroadcastLagged => (s, SessionAction::Continue),
        _ => (s, SessionAction::Disconnect),
    }
}

impl ClientSession {
    /// A fresh connection's counters.
    pub fn new(max_ball_escaped_per_sec: u32) -> (s: Self)
        ensures
            s == (ClientSession {
                max_ball_escaped_per_sec,
                ball_escaped_count: 0,
                set_paused_count: 0,
                activity_count: 0,
                parse_error_count: 0,
            }),
    {
        ClientSession {
            max_ball_escaped_per_sec,
            ball_escaped_count: 0,
            set_paused_count: 0,
            activity_count: 0,
            parse_error_count: 0,
        }
    }

    /// Whether the counters can take one more message of `kind` without
    /// overflowing. Only a connection that sends more than four billion
    /// messages of one kind within a second fails it.
    pub open spec fn can_count(&self, e: SessionEvent) -> bool {
        match e {
            SessionEvent::Parsed { kind, window_expired } => window_expired || kind_count(*self, kind) < u32::MAX,
            SessionEvent::ParseFailed => self.parse_error_count < u32::MAX,
            _ => true,
        }
    }

    /// Applies the connection policy to one event: oversized frames, binary
    /// frames, too many consecutive parse errors and an escape flood
    /// disconnect; excess paused flags and heartbeats are dropped; a parsed
    /// message resets the parse-error count.
    pub fn step(&mut self, event: SessionEvent) -> (action: SessionAction)
        requires
            old(self).can_count(event),
        ensures
            (*final(self), action) == session_step(*old(self), event),
    {
        match event {
            SessionEvent::Text { byte_len } => {
                if byte_len > MAX_TEXT_MSG_BYTES {
                    SessionAction::Disconnect
                } else {
                    SessionAction::Parse
                }
            },
            SessionEvent::Parsed { kind, window_expired } => {
                self.parse_error_count = 0;
                match kind {
                    ClientMessageKind::BallEscaped => {
                        if window_expired {
                            self.ball_escaped_count = 0;
                        }
                        self.ball_escaped_count = self.ball_escaped_count + 1;
                        if self.ball_escaped_count > self.max_ball_escaped_per_sec {
                            SessionAction::Disconnect
                        } else {
                            SessionAction::ValidateBallEscaped
                        }
                    },
                    ClientMessageKind::SetPaused => {
                        if window_expired {
                            self.set_paused_count = 0;
                        }
                        self.set_paused_count = self.set_paused_count + 1;
                        if self.set_paused_count > MAX_SET_PAUSED_PER_SEC {
                            SessionAction::Continue
                        } else {
                            SessionAction::ForwardSetPaused
                        }
                    },
                    ClientMessageKind::Activity => {
                        if window_expired {
                            self.activity_count = 0;
                        }
                        self.activity_count = self.activity_count + 1;
                        if self.activity_count > MAX_ACTIVITY_PER_SEC {
                            SessionAction::Continue
                        } else {
                            SessionAction::ForwardActivity
                        }
                    },
                }
            },
            SessionEvent::ParseFailed => {
                self.parse_error_count = self.parse_error_count + 1;
                if self.parse_error_count >= MAX_PARSE_ERRORS {
                    SessionAction::Disconnect
                } else {
                    SessionAction::Continue
                }
            },
            SessionEvent::Control | SessionEvent::BroadcastLagged => SessionAction::Continue,
            _ => SessionAction::Disconnect,
        }
    }
}

/// A parsed message counts against its own kind's budget only: the other
/// kinds' counters and the escape limit stay as they were, its own counter
/// restarts at one in a new window and goes up by one otherwise, and the
/// action comes from that counter against that kind's limit.
pub proof fn lemma_parsed_message_counts_only_its_kind(
    s: ClientSession,
    kind: ClientMessageKind,
    window_expired: bool,
)
    requires
        window_expired || match kind {
            ClientMessageKind::BallEscaped => s.ball_escaped_count < u32::MAX,
            ClientMessageKind::SetPaused => s.set_paused_count < u32::MAX,
            ClientMessageKind::Activity => s.activity_count < u32::MAX,
        },
    ensures
        ({
            let (s2, a) = session_step(s, SessionEvent::Parsed { kind, window_expired });
            &&& s2.max_ball_escaped_per_sec == s.max_ball_escaped_per_sec
            &&& s2.parse_error_count == 0
            &&& kind != ClientMessageKind::BallEscaped ==> s2.ball_escaped_count
                == s.ball_escaped_count
            &&& kind != ClientMessageKind::SetPaused ==> s2.set_paused_count == s.set_paused_count
            &&& kind != ClientMessageKind::Activity ==> s2.activity_count == s.activity_count
            &&& kind == ClientMessageKind::BallEscaped ==> {
                &&& s2.ball_escaped_count == (if window_expired {
                    0
                } else {
                    s.ball_escaped_count as int
                }) + 1
                &&& a == if s2.ball_escaped_count > s.max_ball_escaped_per_sec {
                    SessionAction::Disconnect
                } else {
                    SessionAction::ValidateBallEscaped
                }
            }
            &&& kind == ClientMessageKind::SetPaused ==> {
                &&& s2.set_paused_count == (if window_expired {
                    0
                } else {
                    s.set_paused_count as int
                }) + 1
                &&& a == if s2.set_paused_count > 10 {
                    SessionAction::Continue
                } else {
                    SessionAction::ForwardSetPaused
                }
            }
            &&& kind == ClientMessageKind::Activity ==> {
                &&& s2.activity_count == (if window_expired {
                    0
                } else {
                    s.activity_count as int
                }) + 1
                &&& a == if s2.activity_count > 1 {
                    SessionAction::Continue
                } else {
                    SessionAction::ForwardActivity
                }
            }
        }),
{
}

/// Whether an escape goes through depends only on the escapes of its
/// window: a paused flag or heartbeat in between changes nothing of it.
pub proof fn lemma_other_kinds_leave_escapes_alone(
    s: ClientSession,
    kind: ClientMessageKind,
    window_expired: bool,
    escape_window_expired: bool,
)
    requires
        kind != ClientMessageKind::BallEscaped,
        window_expired || match kind {
            ClientMessageKind::SetPaused => s.set_paused_count < u32::MAX,
            _ => s.activity_count < u32::MAX,
        },
        escape_window_expired || s.ball_escaped_count < u32::MAX,
    ensures
        ({
            let escape = SessionEvent::Parsed {
                kind: ClientMessageKind::BallEscaped,
                window_expired: escape_window_expired,
            };
            let s1 = session_step(s, SessionEvent::Parsed { kind, window_expired }).0;
            &&& session_step(s1, escape).1 == session_step(s, escape).1
            &&& session_step(s1, escape).0.ball_escaped_count == session_step(
                s,
                escape,
            ).0.ball_escaped_count
        }),
{
    lemma_parsed_message_counts_only_its_kind(s, kind, window_expired);
    let s1 = session_step(s, SessionEvent::Parsed { kind, window_expired }).0;
    lemma_parsed_message_counts_only_its_kind(s1, ClientMessageKind::BallEscaped, escape_window_expired);
    lemma_parsed_message_counts_only_its_kind(s, ClientMessageKind::BallEscaped, escape_window_expired);
}

/// The session after `k` copies of event `e`.
pub open spec fn repeat_step(s: ClientSession, e: SessionEvent, k: nat) -> ClientSession
    decreases k,
{
    if k == 0 {
        s
    } else {
        session_step(repeat_step(s, e, (k - 1) as nat), e).0
    }
}

proof fn lemma_repeat_counts(s: ClientSession, kind: ClientMessageKind, k: nat)
    requires
        kind_count(s, kind) == 0,
        k <= u32::MAX,
    ensures
        kind_count(repeat_step(s, SessionEvent::Parsed { kind, window_expired: false }, k), kind)
            == k,
        kind_limit(repeat_step(s, SessionEvent::Parsed { kind, window_expired: false }, k), kind)
            == kind_limit(s, kind),
    decreases k,
{
    if k > 0 {
        lemma_repeat_counts(s, kind, (k - 1) as nat);
    }
}

/// Within one rate window, the first `limit` messages of a kind go through
/// and every later one is over the limit: a further escape disconnects the
/// client, a further paused flag or heartbeat is dropped.
pub proof fn lemma_rate_limit_within_window(s: ClientSession, kind: ClientMessageKind, k: nat)
    requires
        kind_count(s, kind) == 0,
        k < u32::MAX,
    ensures
        ({
            let e = SessionEvent::Parsed { kind, window_expired: false };
            session_step(repeat_step(s, e, k), e).1 == if k + 1 > kind_limit(s, kind) {
                over_limit_action(kind)
            } else {
                forward_action(kind)
            }
        }),
{
    lemma_repeat_counts(s, kind, k);
}

/// An expired window starts counting afresh: the message that opens the new
/// window is counted as the first one.
pub proof fn lemma_expired_window_restarts(s: ClientSession, kind: ClientMessageKind)
    ensures
        kind_count(session_step(s, SessionEvent::Parsed { kind, window_expired: true }).0, kind)
            == 1,
        session_step(s, SessionEvent::Parsed { kind, window_expired: true }).1 == if 1
            > kind_limit(s, kind) {
            over_limit_action(kind)
        } else {
            forward_action(kind)
        },
{
}

proof fn lemma_repeat_parse_failures(s: ClientSession, k: nat)
    requires
        s.parse_error_count == 0,
        k <= u32::MAX,
    ensures
        repeat_step(s, SessionEvent::ParseFailed, k).parse_error_count == k,
    decreases k,
{
    if k > 0 {
        lemma_repeat_parse_failures(s, (k - 1) as nat);
    }
}

/// Starting from a clean parse record, the fifth consecutive unparsable
/// message disconnects the client and the four before it do not.
pub proof fn lemma_parse_errors_disconnect_at_limit(s: ClientSession, k: nat)
    requires
        s.parse_error_count == 0,
        k < u32::MAX,
    ensures
        session_step(repeat_step(s, SessionEvent::ParseFailed, k), SessionEvent::ParseFailed).1
            == if k + 1 >= MAX_PARSE_ERRORS {
            SessionAction::Disconnect
        } else {
            SessionAction::Continue
        },
{
    lemma_repeat_parse_failures(s, k);
}

/// A message that parses clears the parse-error record.
pub proof fn lemma_parsed_message_clears_errors(
    s: ClientSession,
    kind: ClientMessageKind,
    window_expired: bool,
)
    ensures
        session_step(s, SessionEvent::Parsed { kind, window_expired }).0.parse_error_count == 0,
{
}

/// Oversized text frames and binary frames always end the connection, and
/// leave the counters as they were.
pub proof fn lemma_oversized_and_binary_disconnect(s: ClientSession, byte_len: usize)
    ensures
        byte_len > MAX_TEXT_MSG_BYTES ==> session_step(s, SessionEvent::Text { byte_len })
            == (s, SessionAction::Disconnect),
        session_step(s, SessionEvent::Binary) == (s, SessionAction::Disconnect),
{
}

/// Whether a connection's `Origin` header is accepted: with no configured
/// origins every origin is; a request without the header is; otherwise the
/// origin must equal one of the configured ones exactly.
pub fn is_origin_allowed(origin: Option<&str>, allowed_origins: &Vec<String>) -> (ok: bool)
    ensures
        ok == (allowed_origins@.len() == 0 || origin is None || exists|i: int|
            0 <= i < allowed_origins@.len() && allowed_origins@[i]@ == origin.unwrap()@),
{
    if allowed_origins.len() == 0 {
        return true;
    }
    let o = match origin {
        Some(o) => o.to_owned(),
        None => return true,
    };
    let n = allowed_origins.len();
    let mut i: usize = 0;
    while i < n
        invariant
            n == allowed_origins@.len(),
            i <= n,
            o@ == origin.unwrap()@,
            forall|j: int| 0 <= j < i ==> allowed_origins@[j]@ != o@,
        decreases n - i,
    {
        if allowed_origins[i] == o {
            return true;
        }
        i = i + 1;
    }
    false
}

/// The answer to a WebSocket upgrade request.
#[derive(Clone, Copy, Debug, PartialEq, Eq, Structural)]
pub enum Admission {
    /// The origin is not allowed (403).
    Forbidden,
    /// The server is at its connection limit (503).
    Unavailable,
    /// The connection is upgraded.
    Upgrade,
}

/// Decides an upgrade request: the origin is checked first, then whether a
/// connection slot is free.
pub fn admit_connection(origin_allowed: bool, slot_available: bool) -> (a: Admission)
    ensures
        a == if !origin_allowed {
            Admission::Forbidden
        } else if !slot_available {
            Admission::Unavailable
        } else {
            Admission::Upgrade
        },
{
    if !origin_allowed {
        Admission::Forbidden
    } else if !slot_available {
        Admission::Unavailable
    } else {
        Admission::Upgrade
    }
}

} // verus!
