use vstd::prelude::*;

use crate::text::{parse_u32, parse_u64, spec_parse_unsigned};

verus! {

/// The load test's counters. Each goes up (and `connected` also down)
/// with wrapping 64-bit arithmetic.
#[derive(Clone, Copy, Debug, PartialEq, Eq, Structural)]
pub struct Metrics {
    pub connected: u64,
    pub messages_received: u64,
    pub space_states_received: u64,
    pub transfer_ins_received: u64,
    pub ball_escapes_sent: u64,
    pub errors: u64,
    pub total_balls_seen: u64,
    pub latency_sum_ms: u64,
    pub latency_count: u64,
}

/// Which counter a measurement goes to.
#[derive(Clone, Copy, Debug, PartialEq, Eq, Structural)]
pub enum Counter {
    Connected,
    MessagesReceived,
    SpaceStatesReceived,
    TransferInsReceived,
    BallEscapesSent,
    Errors,
    TotalBallsSeen,
    LatencySumMs,
    LatencyCount,
}

/// `a + b` modulo 2^64.
pub open spec fn wrap_add(a: u64, b: u64) -> u64 {
    ((a as int + b as int) % 0x1_0000_0000_0000_0000) as u64
}

/// The value of counter `c` in `m`.
pub open spec fn counter_value(m: Metrics, c: Counter) -> u64 {
    match c {
        Counter::Connected => m.connected,
        Counter::MessagesReceived => m.messages_received,
        Counter::SpaceStatesReceived => m.space_states_received,
        Counter::TransferInsReceived => m.transfer_ins_received,
        Counter::BallEscapesSent => m.ball_escapes_sent,
        Counter::Errors => m.errors,
        Counter::TotalBallsSeen => m.total_balls_seen,
        Counter::LatencySumMs => m.latency_sum_ms,
        Counter::LatencyCount => m.latency_count,
    }
}

/// Each counter names the field of the same name: connected clients,
/// messages, space states, transfers, escapes, errors, balls seen, the
/// latency sum and the latency count are kept apart.
pub proof fn lemma_counter_names_its_field(m: Metrics)
    ensures
        counter_value(m, Counter::Connected) == m.connected,
        counter_value(m, Counter::MessagesReceived) == m.messages_received,
        counter_value(m, Counter::SpaceStatesReceived) == m.space_states_received,
        counter_value(m, Counter::TransferInsReceived) == m.transfer_ins_received,
        counter_value(m, Counter::BallEscapesSent) == m.ball_escapes_sent,
        counter_value(m, Counter::Errors) == m.errors,
        counter_value(m, Counter::TotalBallsSeen) == m.total_balls_seen,
        counter_value(m, Counter::LatencySumMs) == m.latency_sum_ms,
        counter_value(m, Counter::LatencyCount) == m.latency_count,
{
}

fn wrapping_add_u64(a: u64, b: u64) -> (r: u64)
    ensures
        r == wrap_add(a, b),
{
    a.wrapping_add(b)
}

impl Metrics {
    /// All counters at zero.
    pub fn new() -> (m: Self)
        ensures
            forall|c: Counter| counter_value(m, c) == 0,
    {
        Metrics {
            connected: 0,
            messages_received: 0,
            space_states_received: 0,
            transfer_ins_received: 0,
            ball_escapes_sent: 0,
            errors: 0,
            total_balls_seen: 0,
            latency_sum_ms: 0,
            latency_count: 0,
        }
    }

    /// Adds `n` to counter `c`; the other counters stay.
    pub fn add(&mut self, c: Counter, n: u64)
        ensures
            counter_value(*final(self), c) == wrap_add(counter_value(*old(self), c), n),
            forall|d: Counter| d != c ==> counter_value(*final(self), d) == counter_value(*old(self), d),
    {
        match c {
            Counter::Connected => self.connected = wrapping_add_u64(self.connected, n),
            Counter::MessagesReceived => self.messages_received = wrapping_add_u64(self.messages_received, n),
            Counter::SpaceStatesReceived => self.space_states_received = wrapping_add_u64(self.space_states_received, n),
            Counter::TransferInsReceived => self.transfer_ins_received = wrapping_add_u64(self.transfer_ins_received, n),
            Counter::BallEscapesSent => self.ball_escapes_sent = wrapping_add_u64(self.ball_escapes_sent, n),
            Counter::Errors => self.errors = wrapping_add_u64(self.errors, n),
            Counter::TotalBallsSeen => self.total_balls_seen = wrapping_add_u64(self.total_balls_seen, n),
            Counter::LatencySumMs => self.latency_sum_ms = wrapping_add_u64(self.latency_sum_ms, n),
            Counter::LatencyCount => self.latency_count = wrapping_add_u64(self.latency_count, n),
        }
    }

    /// A client disconnected: the connected count goes down by one
    /// (wrapping below zero).
    pub fn disconnected(&mut self)
        ensures
            final(self).connected == if old(self).connected == 0 {
                u64::MAX
            } else {
                (old(self).connected - 1) as u64
            },
            forall|d: Counter| d != Counter::Connected ==> counter_value(*final(self), d) == counter_value(*old(self), d),
    {
        self.connected = self.connected.wrapping_sub(1);
    }

    /// Books what happened to one fake client and says whether the client
    /// goes on: the step of the client's life that the load test's network
    /// code reports each event to.
    pub fn record(&mut self, event: ClientEvent) -> (go_on: bool)
        ensures
            *final(self) == after_event(*old(self), event),
            go_on == client_goes_on(event),
    {
        match event {
            ClientEvent::ConnectFailed => {
                self.errors = wrapping_add_u64(self.errors, 1);
                false
            },
            ClientEvent::Connected { latency_ms } => {
                self.latency_sum_ms = wrapping_add_u64(self.latency_sum_ms, latency_ms);
                self.latency_count = wrapping_add_u64(self.latency_count, 1);
                self.connected = wrapping_add_u64(self.connected, 1);
                true
            },
            ClientEvent::MessageReceived => {
                self.messages_received = wrapping_add_u64(self.messages_received, 1);
                true
            },
            ClientEvent::WelcomeFailed => {
                self.errors = wrapping_add_u64(self.errors, 1);
                self.connected = self.connected.wrapping_sub(1);
                false
            },
            ClientEvent::EscapeSent => {
                self.ball_escapes_sent = wrapping_add_u64(self.ball_escapes_sent, 1);
                true
            },
            ClientEvent::EscapeSendFailed => {
                self.errors = wrapping_add_u64(self.errors, 1);
                false
            },
            ClientEvent::SpaceStateReceived { balls } => {
                self.space_states_received = wrapping_add_u64(self.space_states_received, 1);
                self.total_balls_seen = wrapping_add_u64(self.total_balls_seen, balls);
                true
            },
            ClientEvent::TransferInReceived => {
                self.transfer_ins_received = wrapping_add_u64(self.transfer_ins_received, 1);
                true
            },
            ClientEvent::StreamClosed => false,
            ClientEvent::StreamFailed => {
                self.errors = wrapping_add_u64(self.errors, 1);
                false
            },
            ClientEvent::Left => {
                self.connected = self.connected.wrapping_sub(1);
                false
            },
        }
    }
}

/// What happens to a fake client, as its network code sees it.
#[derive(Clone, Copy, Debug, PartialEq, Eq, Structural)]
pub enum ClientEvent {
    /// The connection could not be opened.
    ConnectFailed,
    /// The connection opened after `latency_ms` milliseconds.
    Connected { latency_ms: u64 },
    /// A text message arrived.
    MessageReceived,
    /// The welcome did not come (closed, failed or timed out).
    WelcomeFailed,
    /// A ball escape was sent.
    EscapeSent,
    /// Sending a ball escape failed.
    EscapeSendFailed,
    /// A message was a space state listing `balls` balls.
    SpaceStateReceived { balls: u64 },
    /// A message was a ball transferred in.
    TransferInReceived,
    /// The server closed the connection or the stream ended.
    StreamClosed,
    /// Reading from the connection failed.
    StreamFailed,
    /// The client closed its connection at the end of its run.
    Left,
}

/// `a - 1`, wrapping below zero.
pub open spec fn wrap_dec(a: u64) -> u64 {
    if a == 0 { u64::MAX } else { (a - 1) as u64 }
}

/// The counters after `event`: a failure counts an error; a connection
/// counts its latency and one more connected client; a failed welcome and a
/// client leaving count one connected client less; each message, sent
/// escape, space state (with its balls) and transfer is counted.
pub open spec fn after_event(m: Metrics, event: ClientEvent) -> Metrics {
    match event {
        ClientEvent::ConnectFailed => Metrics { errors: wrap_add(m.errors, 1), ..m },
        ClientEvent::Connected { latency_ms } => Metrics {
            latency_sum_ms: wrap_add(m.latency_sum_ms, latency_ms),
            latency_count: wrap_add(m.latency_count, 1),
            connected: wrap_add(m.connected, 1),
            ..m
        },
        ClientEvent::MessageReceived => Metrics {
            messages_received: wrap_add(m.messages_received, 1),
            ..m
        },
        ClientEvent::WelcomeFailed => Metrics {
            errors: wrap_add(m.errors, 1),
            connected: wrap_dec(m.connected),
            ..m
        },
        ClientEvent::EscapeSent => Metrics { ball_escapes_sent: wrap_add(m.ball_escapes_sent, 1), ..m },
        ClientEvent::EscapeSendFailed => Metrics { errors: wrap_add(m.errors, 1), ..m },
        ClientEvent::SpaceStateReceived { balls } => Metrics {
            space_states_received: wrap_add(m.space_states_received, 1),
            total_balls_seen: wrap_add(m.total_balls_seen, balls),
            ..m
        },
        ClientEvent::TransferInReceived => Metrics {
            transfer_ins_received: wrap_add(m.transfer_ins_received, 1),
            ..m
        },
        ClientEvent::StreamClosed => m,
        ClientEvent::StreamFailed => Metrics { errors: wrap_add(m.errors, 1), ..m },
        ClientEvent::Left => Metrics { connected: wrap_dec(m.connected), ..m },
    }
}

/// Whether the client goes on after `event`: it stops when it cannot
/// connect, gets no welcome, cannot send, loses the stream, or leaves.
pub open spec fn client_goes_on(event: ClientEvent) -> bool {
    match event {
        ClientEvent::Connected { .. } | ClientEvent::MessageReceived | ClientEvent::EscapeSent
        | ClientEvent::SpaceStateReceived { .. } | ClientEvent::TransferInReceived => true,
        _ => false,
    }
}

/// Average number of balls per space-state message, 0 before any arrived.
pub fn average_balls(total_balls_seen: u64, space_states: u64) -> (a: u64)
    ensures
        a == if space_states > 0 { total_balls_seen / space_states } else { 0 },
{
    if space_states > 0 {
        total_balls_seen / space_states
    } else {
        0
    }
}

/// Average connect latency in milliseconds, if any connection succeeded.
pub fn average_latency_ms(latency_sum_ms: u64, latency_count: u64) -> (a: Option<u64>)
    ensures
        a == if latency_count > 0 {
            Some(latency_sum_ms / latency_count)
        } else {
            None::<u64>
        },
{
    if latency_count > 0 {
        Some(latency_sum_ms / latency_count)
    } else {
        None
    }
}

/// The fake client's random state after one step of its linear
/// congruential generator.
pub open spec fn spec_next_lcg_state(state: u64) -> int {
    (state as int * 6364136223846793005 + 1) % 0x1_0000_0000_0000_0000
}

/// Advances a fake client's random state.
pub fn next_lcg_state(state: u64) -> (s: u64)
    ensures
        s == spec_next_lcg_state(state),
{
    let t = state.wrapping_mul(6364136223846793005);
    let r = t.wrapping_add(1);
    proof {
        let m: int = 0x1_0000_0000_0000_0000;
        let a = state as int * 6364136223846793005;
        assert(t == a % m);
        vstd::arithmetic::div_mod::lemma_add_mod_noop(a, 1, m);
        vstd::arithmetic::div_mod::lemma_small_mod(1, m as nat);
        vstd::arithmetic::div_mod::lemma_mod_twice(a, m);
        vstd::arithmetic::div_mod::lemma_add_mod_noop(a % m, 1, m);
    }
    r
}

/// The fake client's starting random state.
pub fn initial_lcg_state(client_id: u32) -> (s: u64)
    ensures
        s == client_id as int * 12345 + 67890,
{
    client_id as u64 * 12345 + 67890
}


/// Default number of fake clients.
pub const DEFAULT_CLIENTS: u32 = 100;

/// Default test duration in seconds.
pub const DEFAULT_DURATION_SECS: u64 = 30;

/// The client count a `--clients` value gives: the number read, or the
/// default when there is none.
pub fn clients_or_default(parsed: Option<u32>) -> (n: u32)
    ensures
        n == match parsed {
            Some(v) => v,
            None => DEFAULT_CLIENTS,
        },
{
    match parsed {
        Some(v) => v,
        None => DEFAULT_CLIENTS,
    }
}

/// The duration a `--duration` value gives: the number read, or the
/// default when there is none.
pub fn duration_or_default(parsed: Option<u64>) -> (d: u64)
    ensures
        d == match parsed {
            Some(v) => v,
            None => DEFAULT_DURATION_SECS,
        },
{
    match parsed {
        Some(v) => v,
        None => DEFAULT_DURATION_SECS,
    }
}

/// The load test's command line, read. The escape rate is a real number:
/// its text (after the last `--escape-rate`) is kept for the caller to read,
/// with the default rate applying when it is absent or unreadable.
pub struct LoadTestArgs {
    pub num_clients: u32,
    pub duration_secs: u64,
    pub escape_rate_text: Option<String>,
    pub url: String,
}

/// The command line seen as plain values.
pub struct ArgsModel {
    pub num_clients: u32,
    pub duration_secs: u64,
    pub escape_rate_text: Option<Seq<char>>,
    pub url: Seq<char>,
}

/// The argument after position `i`, if there is one.
pub open spec fn arg_after(args: Seq<Seq<char>>, i: int) -> Option<Seq<char>> {
    if i + 1 < args.len() { Some(args[i + 1]) } else { None }
}

/// Reads the arguments from position `i` on into `st`: each recognised
/// flag takes the next argument as its value (a missing or unreadable
/// number gives the default; a missing URL keeps the previous one);
/// anything else is skipped.
pub open spec fn read_args_from(args: Seq<Seq<char>>, i: int, st: ArgsModel) -> ArgsModel
    decreases args.len() + 1 - i,
{
    if i < 0 || i >= args.len() {
        st
    } else {
        let a = args[i];
        let v = arg_after(args, i);
        if a == "--clients"@ {
            let n = match v {
                Some(t) => match spec_parse_unsigned(t, u32::MAX as int) {
                    Some(n) => n as u32,
                    None => DEFAULT_CLIENTS,
                },
                None => DEFAULT_CLIENTS,
            };
            read_args_from(args, i + 2, ArgsModel { num_clients: n, ..st })
        } else if a == "--duration"@ {
            let d = match v {
                Some(t) => match spec_parse_unsigned(t, u64::MAX as int) {
                    Some(d) => d as u64,
                    None => DEFAULT_DURATION_SECS,
                },
                None => DEFAULT_DURATION_SECS,
            };
            read_args_from(args, i + 2, ArgsModel { duration_secs: d, ..st })
        } else if a == "--escape-rate"@ {
            read_args_from(args, i + 2, ArgsModel { escape_rate_text: v, ..st })
        } else if a == "--url"@ {
            let u = match v {
                Some(t) => t,
                None => st.url,
            };
            read_args_from(args, i + 2, ArgsModel { url: u, ..st })
        } else {
            read_args_from(args, i + 1, st)
        }
    }
}

/// The defaults before any flag is read.
pub open spec fn default_args() -> ArgsModel {
    ArgsModel {
        num_clients: DEFAULT_CLIENTS,
        duration_secs: DEFAULT_DURATION_SECS,
        escape_rate_text: None,
        url: "ws://127.0.0.1:9001/ws"@,
    }
}

impl LoadTestArgs {
    pub open spec fn model(&self) -> ArgsModel {
        ArgsModel {
            num_clients: self.num_clients,
            duration_secs: self.duration_secs,
            escape_rate_text: match self.escape_rate_text {
                Some(t) => Some(t@),
                None => None,
            },
            url: self.url@,
        }
    }
}

/// Reads the load test's command line (`args[0]` is the program name).
pub fn parse_load_test_args(args: &Vec<String>) -> (r: LoadTestArgs)
    ensures
        r.model() == read_args_from(args@.map_values(|a: String| a@), 1, default_args()),
{
    let ghost sargs = args@.map_values(|a: String| a@);
    let clients_flag = String::from_str("--clients");
    let duration_flag = String::from_str("--duration");
    let rate_flag = String::from_str("--escape-rate");
    let url_flag = String::from_str("--url");
    let mut r = LoadTestArgs {
        num_clients: DEFAULT_CLIENTS,
        duration_secs: DEFAULT_DURATION_SECS,
        escape_rate_text: None,
        url: String::from_str("ws://127.0.0.1:9001/ws"),
    };
    let n = args.len();
    let mut i: usize = 1;
    while i < n
        invariant
            n == args@.len(),
            sargs == args@.map_values(|a: String| a@),
            clients_flag@ == "--clients"@,
            duration_flag@ == "--duration"@,
            rate_flag@ == "--escape-rate"@,
            url_flag@ == "--url"@,
            i >= 1,
            read_args_from(sargs, i as int, r.model()) == read_args_from(sargs, 1, default_args()),
        decreases n - i,
    {
        let ghost before = r.model();
        let ghost at = i as int;
        let has_next = i + 1 < n;
        if args[i] == clients_flag {
            let v = if has_next {
                clients_or_default(parse_u32(args[i + 1].as_str()))
            } else {
                DEFAULT_CLIENTS
            };
            r.num_clients = v;
            i = if has_next { i + 2 } else { n };
        } else if args[i] == duration_flag {
            let v = if has_next {
                duration_or_default(parse_u64(args[i + 1].as_str()))
            } else {
                DEFAULT_DURATION_SECS
            };
            r.duration_secs = v;
            i = if has_next { i + 2 } else { n };
        } else if args[i] == rate_flag {
            r.escape_rate_text = if has_next {
                Some(args[i + 1].clone())
            } else {
                None
            };
            i = if has_next { i + 2 } else { n };
        } else if args[i] == url_flag {
            if has_next {
                r.url = args[i + 1].clone();
            }
            i = if has_next { i + 2 } else { n };
        } else {
            i = i + 1;
        }
        proof {
            assert(sargs[at] == args@[at]@);
            if at + 1 < n {
                assert(sargs[at + 1] == args@[at + 1]@);
            }
            if !has_next {
                assert(read_args_from(sargs, at + 2, r.model()) == r.model());
                assert(read_args_from(sargs, n as int, r.model()) == r.model());
            }
            assert(read_args_from(sargs, i as int, r.model()) == read_args_from(sargs, at, before));
        }
    }
    r
}
} // verus!
