use cosmic_ext_applet_crypto::cache::{cache_age, cache_serves_startup, now_secs, secs_or_zero};
use cosmic_ext_applet_crypto::config::Config;

#[test]
fn age_counts_seconds_since_the_fetch() {
    assert_eq!(cache_age(1_000, 400), 600);
    assert_eq!(cache_age(400, 400), 0);
    assert_eq!(cache_age(400, 1_000), 0);
}

#[test]
fn clock_reads_after_the_epoch() {
    let now = now_secs();
    assert!(now > 1_600_000_000);
    assert!(cache_age(now_secs(), now) < 5);
}

#[test]
fn fresh_cache_serves_startup_without_a_request() {
    let mut config = Config::default();
    assert!(cache_serves_startup(3, 0, &config));
    assert!(cache_serves_startup(3, 60, &config));
    assert!(!cache_serves_startup(3, 61, &config));
    assert!(!cache_serves_startup(0, 0, &config));
    config.refresh_secs = 5;
    assert!(cache_serves_startup(1, 30, &config));
    assert!(!cache_serves_startup(1, 31, &config));
}

#[test]
fn clock_readings_become_whole_seconds_or_zero() {
    assert_eq!(secs_or_zero(Ok(std::time::Duration::from_millis(5_999))), 5);
    assert_eq!(secs_or_zero(Ok(std::time::Duration::from_secs(1_700_000_000))), 1_700_000_000);
    let before_epoch = std::time::UNIX_EPOCH.duration_since(std::time::SystemTime::now());
    assert!(before_epoch.is_err());
    assert_eq!(secs_or_zero(before_epoch), 0);
}
