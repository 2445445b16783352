use pinball::config::{bot_count_setting, ConfigError, ServerConfig, DEFAULT_BOT_COUNT};

fn max_velocity_ok(v: f64) -> bool {
    v.is_finite() && v > 0.0
}

#[test]
fn default_server_config_is_valid() {
    let config = ServerConfig::default();
    assert!(config.validate(max_velocity_ok(10.0)).is_ok());
}

#[test]
fn server_config_zero_tick_rate_invalid() {
    let mut config = ServerConfig::default();
    config.tick_rate_hz = 0;
    assert!(config.validate(max_velocity_ok(10.0)).is_err());
}

#[test]
fn server_config_zero_broadcast_rate_invalid() {
    let mut config = ServerConfig::default();
    config.broadcast_rate_hz = 0;
    assert!(config.validate(max_velocity_ok(10.0)).is_err());
}

#[test]
fn server_config_zero_cell_count_invalid() {
    let mut config = ServerConfig::default();
    config.cell_count = 0;
    assert!(config.validate(max_velocity_ok(10.0)).is_err());
}

#[test]
fn server_config_nan_max_velocity_invalid() {
    let config = ServerConfig::default();
    assert!(config.validate(max_velocity_ok(f64::NAN)).is_err());
}

#[test]
fn server_config_negative_max_velocity_invalid() {
    let config = ServerConfig::default();
    assert!(config.validate(max_velocity_ok(-1.0)).is_err());
}

#[test]
fn config_errors_report_first_failing_check() {
    let mut config = ServerConfig::default();
    config.max_connections = 0;
    config.max_balls_global = 0;
    assert_eq!(config.validate(true), Err(ConfigError::MaxConnectionsZero));
    assert_eq!(config.validate(false), Err(ConfigError::MaxVelocityInvalid));
    config.max_connections = 5;
    assert_eq!(config.validate(true), Err(ConfigError::MaxBallsGlobalZero));
    assert_eq!(
        ConfigError::MaxBallsGlobalZero.message(),
        "max_balls_global must be > 0"
    );
    assert_eq!(ConfigError::TickRateZero.message(), "tick_rate_hz must be > 0");
}

#[test]
fn default_server_config_values() {
    let c = ServerConfig::default();
    assert_eq!(c.listen_addr, "0.0.0.0:9001");
    assert_eq!(c.tick_rate_hz, 60);
    assert_eq!(c.broadcast_rate_hz, 10);
    assert_eq!(c.cell_count, 2048);
    assert_eq!(c.max_balls_global, 1000);
    assert_eq!(c.bot_count, 3);
    assert!(c.allowed_origins.is_empty());
}

#[test]
fn bot_count_setting_reads_number_or_defaults() {
    assert_eq!(bot_count_setting(None), 3);
    assert_eq!(bot_count_setting(Some("5")), 5);
    assert_eq!(bot_count_setting(Some("0")), 0);
    assert_eq!(bot_count_setting(Some("five")), 3);
    assert_eq!(bot_count_setting(Some("")), 3);
    assert_eq!(bot_count_setting(Some("-1")), 3);
    assert_eq!(DEFAULT_BOT_COUNT, 3);
}
