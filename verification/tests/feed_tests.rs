use cosmic_ext_applet_crypto::config::Config;
use cosmic_ext_applet_crypto::feed::{config_needs_refetch, Feed};

#[test]
fn only_one_refresh_runs_at_a_time() {
    let mut feed: Feed<u32> = Feed::new();
    assert!(feed.begin_refresh());
    assert!(!feed.begin_refresh());
    feed.finish_refresh(Ok(vec![1]));
    assert!(!feed.loading);
    assert!(feed.begin_refresh());
}

#[test]
fn failed_refresh_keeps_last_quotes_marked_stale() {
    let mut feed: Feed<u32> = Feed::new();
    feed.begin_refresh();
    feed.finish_refresh(Ok(vec![7, 8]));
    assert_eq!(feed.quotes, vec![7, 8]);
    assert!(!feed.stale);
    feed.begin_refresh();
    feed.finish_refresh(Err("rate limited by CoinGecko".to_string()));
    assert_eq!(feed.quotes, vec![7, 8]);
    assert!(feed.stale);
    assert_eq!(feed.error, None);
    feed.begin_refresh();
    feed.finish_refresh(Ok(vec![]));
    assert_eq!(feed.quotes, vec![7, 8]);
    assert!(feed.stale);
    feed.finish_refresh(Ok(vec![9]));
    assert_eq!(feed.quotes, vec![9]);
    assert!(!feed.stale);
}

#[test]
fn failure_with_nothing_on_screen_shows_the_reason() {
    let mut feed: Feed<u32> = Feed::new();
    feed.finish_refresh(Err("request failed".to_string()));
    assert_eq!(feed.error.as_deref(), Some("request failed"));
    assert!(!feed.stale);
    feed.finish_refresh(Ok(vec![]));
    assert_eq!(feed.error.as_deref(), Some("no quotes returned"));
    feed.finish_refresh(Ok(vec![1]));
    assert_eq!(feed.error, None);
}

#[test]
fn refetch_only_when_coins_or_currency_change() {
    let old = Config::default();
    let mut new = Config::default();
    new.refresh_secs = 120;
    new.panel_coin = "solana".to_string();
    assert!(!config_needs_refetch(&old, &new));
    new.currency = "eur".to_string();
    assert!(config_needs_refetch(&old, &new));
    let mut new = Config::default();
    new.coins.pop();
    assert!(config_needs_refetch(&old, &new));
}

#[test]
fn cached_quotes_start_the_feed_and_replacement_is_reported() {
    let mut feed: Feed<u32> = Feed::from_cache(vec![4, 5]);
    assert_eq!(feed.quotes, vec![4, 5]);
    assert!(!feed.stale && !feed.loading && feed.error.is_none());
    assert!(!feed.finish_refresh(Err("request failed".to_string())));
    assert!(feed.stale);
    assert!(!feed.finish_refresh(Ok(vec![])));
    assert!(feed.finish_refresh(Ok(vec![6])));
    assert_eq!(feed.quotes, vec![6]);
}
