use buffett_bots::config::{bench_config, drone_config, BenchConfig, ConfigError, DroneConfig};
use buffett_bots::numparse::{parse_i64, parse_u64, parse_usize};

#[test]
fn parses_like_std() {
    let cases: [&str; 14] = [
        "", "+", "-", "0", "007", "+42", "-42", "12a", " 1", "18446744073709551615",
        "18446744073709551616", "-0", "+-1", "9223372036854775808",
    ];
    for c in cases.iter() {
        assert_eq!(parse_u64(c.as_bytes()), c.parse::<u64>().ok(), "u64 {:?}", c);
        assert_eq!(parse_usize(c.as_bytes()), c.parse::<usize>().ok(), "usize {:?}", c);
        assert_eq!(parse_i64(c.as_bytes()), c.parse::<i64>().ok(), "i64 {:?}", c);
    }
    assert_eq!(parse_i64(b"-9223372036854775808"), Some(i64::MIN));
    assert_eq!(parse_i64(b"-9223372036854775809"), None);
    assert_eq!(parse_i64(b"9223372036854775807"), Some(i64::MAX));
    assert_eq!(parse_u64(b"18446744073709551615"), Some(u64::MAX));
}

#[test]
fn bench_defaults() {
    let c = bench_config(None, None, None, None, false, false, false).unwrap();
    assert_eq!(
        c,
        BenchConfig {
            threads: 4,
            num_nodes: 1,
            duration_secs: u64::MAX,
            tx_count: 500_000,
            sustained: false,
            reject_extra_nodes: false,
            converge_only: false,
        }
    );
    assert_eq!(c.keypair_count(), 250_000);
}

#[test]
fn bench_values_and_errors() {
    let c = bench_config(Some(b"8"), Some(b"5"), Some(b"60"), Some(b"-7"), true, true, true).unwrap();
    assert_eq!((c.threads, c.num_nodes, c.duration_secs, c.tx_count), (8, 5, 60, -7));
    assert!(c.sustained && c.reject_extra_nodes && c.converge_only);
    assert_eq!(c.keypair_count(), -3);
    assert_eq!(bench_config(Some(b"x"), Some(b"y"), None, None, false, false, false), Err(ConfigError::Threads));
    assert_eq!(bench_config(None, Some(b"-1"), None, None, false, false, false), Err(ConfigError::NumNodes));
    assert_eq!(bench_config(None, None, Some(b"1.5"), Some(b"z"), false, false, false), Err(ConfigError::Duration));
    assert_eq!(bench_config(None, None, None, Some(b""), false, false, false), Err(ConfigError::TxCount));
}

#[test]
fn drone_settings() {
    assert_eq!(drone_config(None, None), Ok(DroneConfig { time_slice_secs: None, request_cap: None }));
    assert_eq!(
        drone_config(Some(b"60"), Some(b"+3")),
        Ok(DroneConfig { time_slice_secs: Some(60), request_cap: Some(3) })
    );
    assert_eq!(drone_config(Some(b"-60"), Some(b"x")), Err(ConfigError::Slice));
    assert_eq!(drone_config(Some(b"60"), Some(b"x")), Err(ConfigError::Cap));
}
