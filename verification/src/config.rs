use vstd::prelude::*;

use crate::text::{parse_usize, spec_parse_unsigned};

verus! {

/// Why a server configuration was refused.
#[derive(Clone, Copy, Debug, PartialEq, Eq, Structural)]
pub enum ConfigError {
    TickRateZero,
    BroadcastRateZero,
    CellCountZero,
    MaxVelocityInvalid,
    MaxConnectionsZero,
    MaxBallsGlobalZero,
}

/// The text that describes a configuration error.
pub open spec fn config_error_text(e: ConfigError) -> Seq<char> {
    match e {
        ConfigError::TickRateZero => "tick_rate_hz must be > 0"@,
        ConfigError::BroadcastRateZero => "broadcast_rate_hz must be > 0"@,
        ConfigError::CellCountZero => "cell_count must be > 0"@,
        ConfigError::MaxVelocityInvalid => "max_velocity must be finite and > 0"@,
        ConfigError::MaxConnectionsZero => "max_connections must be > 0"@,
        ConfigError::MaxBallsGlobalZero => "max_balls_global must be > 0"@,
    }
}

impl ConfigError {
    /// The human-readable description of the error.
    pub fn message(&self) -> (s: String)
        ensures
            s@ == config_error_text(*self),
    {
        match self {
            ConfigError::TickRateZero => String::from_str("tick_rate_hz must be > 0"),
            ConfigError::BroadcastRateZero => String::from_str("broadcast_rate_hz must be > 0"),
            ConfigError::CellCountZero => String::from_str("cell_count must be > 0"),
            ConfigError::MaxVelocityInvalid => String::from_str(
                "max_velocity must be finite and > 0",
            ),
            ConfigError::MaxConnectionsZero => String::from_str("max_connections must be > 0"),
            ConfigError::MaxBallsGlobalZero => String::from_str("max_balls_global must be > 0"),
        }
    }
}

/// Server configuration. The velocity limit for escaped balls is a real
/// number and is kept beside this record by the server; its check enters
/// `validate` as a flag.
#[derive(Clone, Debug)]
pub struct ServerConfig {
    pub listen_addr: String,
    pub tick_rate_hz: u32,
    pub broadcast_rate_hz: u32,
    pub cell_count: usize,
    pub rng_seed: u64,
    /// Maximum ball_escaped messages per second per client.
    pub max_ball_escaped_per_sec: u32,
    /// Maximum concurrent connections.
    pub max_connections: usize,
    /// Global maximum balls in deep space (prevents memory exhaustion).
    pub max_balls_global: usize,
    /// Allowed origins for WebSocket connections (empty = allow all).
    pub allowed_origins: Vec<String>,
    /// Number of bot players to spawn on server start.
    pub bot_count: usize,
}

/// The first check that a configuration fails, in the order the checks
/// are made; `None` when it passes them all.
pub open spec fn first_config_error(c: ServerConfig, max_velocity_ok: bool) -> Option<ConfigError> {
    if c.tick_rate_hz == 0 {
        Some(ConfigError::TickRateZero)
    } else if c.broadcast_rate_hz == 0 {
        Some(ConfigError::BroadcastRateZero)
    } else if c.cell_count == 0 {
        Some(ConfigError::CellCountZero)
    } else if !max_velocity_ok {
        Some(ConfigError::MaxVelocityInvalid)
    } else if c.max_connections == 0 {
        Some(ConfigError::MaxConnectionsZero)
    } else if c.max_balls_global == 0 {
        Some(ConfigError::MaxBallsGlobalZero)
    } else {
        None
    }
}

/// Bots seated when no bot count is configured.
pub const DEFAULT_BOT_COUNT: usize = 3;

/// The bot count that a `BOT_COUNT` setting asks for: the number it spells,
/// or the default when the setting is absent or not a decimal number.
pub open spec fn spec_bot_count_setting(value: Option<Seq<char>>) -> usize {
    match value {
        Some(t) => match spec_parse_unsigned(t, usize::MAX as int) {
            Some(n) => n as usize,
            None => DEFAULT_BOT_COUNT,
        },
        None => DEFAULT_BOT_COUNT,
    }
}

/// Reads the `BOT_COUNT` setting (its text, when it is set).
pub fn bot_count_setting(value: Option<&str>) -> (n: usize)
    ensures
        n == spec_bot_count_setting(
            match value {
                Some(t) => Some(t@),
                None => None,
            },
        ),
{
    match value {
        Some(t) => match parse_usize(t) {
            Some(n) => n,
            None => DEFAULT_BOT_COUNT,
        },
        None => DEFAULT_BOT_COUNT,
    }
}

impl Default for ServerConfig {
    fn default() -> (c: Self)
        ensures
            c.listen_addr@ == "0.0.0.0:9001"@,
            c.tick_rate_hz == 60,
            c.broadcast_rate_hz == 10,
            c.cell_count == 2048,
            c.rng_seed == 42,
            c.max_ball_escaped_per_sec == 30,
            c.max_connections == 1000,
            c.max_balls_global == 1000,
            c.allowed_origins@.len() == 0,
            c.bot_count == DEFAULT_BOT_COUNT,
    {
        ServerConfig {
            listen_addr: String::from_str("0.0.0.0:9001"),
            tick_rate_hz: 60,
            broadcast_rate_hz: 10,
            cell_count: 2048,
            rng_seed: 42,
            max_ball_escaped_per_sec: 30,
            max_connections: 1000,
            max_balls_global: 1000,
            allowed_origins: Vec::new(),
            bot_count: DEFAULT_BOT_COUNT,
        }
    }
}

impl ServerConfig {
    /// Validates the configuration. `max_velocity_ok` says whether the
    /// velocity limit is finite and positive. The first failing check, in
    /// the order of the fields, is reported.
    pub fn validate(&self, max_velocity_ok: bool) -> (r: Result<(), ConfigError>)
        ensures
            match first_config_error(*self, max_velocity_ok) {
                Some(e) => r == Err::<(), ConfigError>(e),
                None => r is Ok,
            },
    {
        if self.tick_rate_hz == 0 {
            return Err(ConfigError::TickRateZero);
        }
        if self.broadcast_rate_hz == 0 {
            return Err(ConfigError::BroadcastRateZero);
        }
        if self.cell_count == 0 {
            return Err(ConfigError::CellCountZero);
        }
        if !max_velocity_ok {
            return Err(ConfigError::MaxVelocityInvalid);
        }
        if self.max_connections == 0 {
            return Err(ConfigError::MaxConnectionsZero);
        }
        if self.max_balls_global == 0 {
            return Err(ConfigError::MaxBallsGlobalZero);
        }
        Ok(())
    }
}

} // verus!
