use core_affinity::CoreId;
use mergequeue_benchmarker::affinity::{pick_core, set_affinity, AffinityOutcome};
use mergequeue_benchmarker::config::{config_from_values, parse_decimal, Config, ConfigError, Setting, MAX_BUFFER_BYTES};

#[test]
fn parse_decimal_values() {
    assert_eq!(parse_decimal("0"), Some(0));
    assert_eq!(parse_decimal("100000"), Some(100000));
    assert_eq!(parse_decimal("18446744073709551615"), Some(u64::MAX));
    assert_eq!(parse_decimal("18446744073709551616"), None);
    assert_eq!(parse_decimal(""), None);
    assert_eq!(parse_decimal("-1"), None);
    assert_eq!(parse_decimal("12a"), None);
    assert_eq!(parse_decimal("+42"), Some(42));
    assert_eq!(parse_decimal("+"), None);
    assert_eq!(parse_decimal("++1"), None);
    assert_eq!(parse_decimal("4+2"), None);
}

#[test]
fn config_defaults() {
    let c = config_from_values("100000", "100000", "0", "1", "2400000000", "1").unwrap();
    assert_eq!(
        c,
        Config {
            n_iterations: 100000,
            frequency: 100000,
            sender_pin: 0,
            receiver_pin: 1,
            clock_frequency: 2400000000,
            message_size: 1,
        }
    );
    assert_eq!(c.send_interval(), 24000);
    assert_eq!(c.buffer_len(), 200000);
    let plus = config_from_values("+10", "+5", "0", "1", "+2400", "+8").unwrap();
    assert_eq!(plus.n_iterations, 10);
    assert_eq!(plus.message_size, 8);
    assert_eq!(plus.messages_in(24), 3);
    assert_eq!(plus.messages_in(23), 2);
}

#[test]
fn config_errors() {
    assert_eq!(
        config_from_values("x", "1", "0", "1", "2", "1"),
        Err(ConfigError::InvalidNumber(Setting::Iterations))
    );
    assert_eq!(
        config_from_values("1", "1", "-1", "1", "2", "1"),
        Err(ConfigError::InvalidNumber(Setting::SendPin))
    );
    assert_eq!(
        config_from_values("1", "1", "0", "", "2", "1"),
        Err(ConfigError::InvalidNumber(Setting::RecvPin))
    );
    assert_eq!(
        config_from_values("1", "1.5", "0", "1", "2", "1"),
        Err(ConfigError::InvalidNumber(Setting::Frequency))
    );
    assert_eq!(
        config_from_values("1", "1", "0", "1", "99999999999999999999", "1"),
        Err(ConfigError::InvalidNumber(Setting::Clock))
    );
    assert_eq!(
        config_from_values("1", "1", "0", "1", "2", "big"),
        Err(ConfigError::InvalidNumber(Setting::MessageSize))
    );
    assert_eq!(config_from_values("1", "0", "0", "1", "2", "1"), Err(ConfigError::ZeroFrequency));
    assert_eq!(config_from_values("1", "5", "0", "1", "2", "0"), Err(ConfigError::ZeroMessageSize));
    assert_eq!(
        config_from_values("4294967296", "10", "0", "1", "2", "1"),
        Err(ConfigError::BufferTooLarge)
    );
    assert_eq!(
        config_from_values("18446744073709551615", "10", "0", "1", "2", "4"),
        Err(ConfigError::BufferTooLarge)
    );
}

#[test]
fn buffer_ceiling_is_inclusive() {
    let n = (MAX_BUFFER_BYTES / 2).to_string();
    let c = config_from_values(&n, "10", "0", "1", "2", "1").unwrap();
    assert_eq!(c.buffer_len(), MAX_BUFFER_BYTES);
}

#[test]
fn core_index_wraps() {
    let cores = vec![CoreId { id: 4 }, CoreId { id: 5 }, CoreId { id: 6 }];
    assert_eq!(pick_core(&cores, 1), Some(CoreId { id: 5 }));
    assert_eq!(pick_core(&cores, 3), Some(CoreId { id: 4 }));
    assert_eq!(pick_core(&cores, 8), Some(CoreId { id: 6 }));
}

#[test]
fn no_core_from_empty_list() {
    assert_eq!(pick_core(&Vec::new(), 0), None);
    assert_eq!(pick_core(&Vec::new(), 7), None);
}

#[test]
fn set_affinity_wraps_any_index() {
    let t_id = 1_000_003usize;
    match set_affinity(t_id) {
        AffinityOutcome::Tried { index, count, .. } => {
            assert!(count > 0);
            assert_eq!(index, t_id % count);
        }
        AffinityOutcome::NoCores => {}
    }
}
