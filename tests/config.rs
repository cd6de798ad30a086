use redis_lite::cli::{Cli, CliError};
use redis_lite::reaper::{sleep_before_sweep, IDLE_MILLIS};
use redis_lite::types::{RedisInfo, RedisRole};
use redis_lite::utils::{
    duration_until_timestamp, millis_to_timestamp_from_now, millis_until, now_millis, timestamp_after,
};

fn cli(replicaof: Option<&str>) -> Cli {
    Cli {
        host: "127.0.0.1".to_string(),
        port: "6379".to_string(),
        role: RedisRole::Master,
        replicaof: replicaof.map(|s| s.to_string()),
    }
}

#[test]
fn role_follows_replicaof() {
    assert_eq!(cli(None).determine_role(), RedisRole::Master);
    assert_eq!(cli(Some("h 1")).determine_role(), RedisRole::Slave);
}

#[test]
fn master_info_from_replicaof() {
    assert_eq!(cli(None).get_master_info(), Ok(("127.0.0.1".to_string(), "6379".to_string())));
    assert_eq!(cli(Some("10.0.0.2 7000")).get_master_info(), Ok(("10.0.0.2".to_string(), "7000".to_string())));
    assert_eq!(cli(Some("10.0.0.2")).get_master_info(), Err(CliError::InvalidReplicaOf));
    assert_eq!(cli(Some("a b c")).get_master_info(), Err(CliError::InvalidReplicaOf));
    assert_eq!(cli(Some(" 7000")).get_master_info(), Ok((String::new(), "7000".to_string())));
}

#[test]
fn role_names() {
    assert_eq!(RedisRole::Master.as_str(), "master");
    assert_eq!(RedisRole::Slave.as_str(), "slave");
    assert_eq!(RedisRole::from_name("MASTER"), Some(RedisRole::Master));
    assert_eq!(RedisRole::from_name("Slave"), Some(RedisRole::Slave));
    assert_eq!(RedisRole::from_name("replica"), None);
}

#[test]
fn info_defaults() {
    let i = RedisInfo::new(RedisRole::Slave, "m", "1");
    assert_eq!(i.master_host, "m");
    assert_eq!(i.master_port, "1");
    assert_eq!(i.master_repl_offset, 0);
    assert_eq!(i.master_replid.len(), 40);
}

#[test]
fn reaper_sleeps_until_next_expiry() {
    assert_eq!(sleep_before_sweep(None, 5), IDLE_MILLIS);
    assert_eq!(IDLE_MILLIS, 10_000);
    assert_eq!(sleep_before_sweep(Some(150), 100), 50);
    assert_eq!(sleep_before_sweep(Some(90), 100), 0);
}

#[test]
fn time_arithmetic() {
    assert_eq!(millis_until(100, 250), 150);
    assert_eq!(millis_until(300, 250), 0);
    assert_eq!(timestamp_after(1000, 10), Some(1010));
    assert_eq!(timestamp_after(u64::MAX, 1), None);
}

#[test]
fn clock_reads() {
    let now = now_millis();
    assert!(now > 1_600_000_000_000);
    let t = millis_to_timestamp_from_now(5000).unwrap();
    assert!(t >= now + 5000);
    assert_eq!(millis_to_timestamp_from_now(u64::MAX), None);
    let d = duration_until_timestamp(now + 60_000);
    assert!(d > 0 && d <= 60_000);
    assert_eq!(duration_until_timestamp(1), 0);
}
