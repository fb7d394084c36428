use cosmic_ext_applet_crypto::market::{
    classify_status, markets_url, select_markets, thin_at, thinning_needed, ticker_of, StatusVerdict,
    SPARK_POINTS,
};

fn strings(v: &[&str]) -> Vec<String> {
    v.iter().map(|s| s.to_string()).collect()
}

/// The applet's sparkline thinning: picks spaced by floating-point steps, then the
/// library's thinning.
fn downsample(values: &[f64], target: usize) -> Vec<f64> {
    if !thinning_needed(values.len(), target) {
        return values.to_vec();
    }
    let step = values.len() as f64 / target as f64;
    let picks: Vec<usize> = (0..target).map(|i| (i as f64 * step) as usize).collect();
    thin_at(values, &picks)
}

#[test]
fn downsample_thins_but_keeps_the_latest_value() {
    let series: Vec<f64> = (0..168).map(f64::from).collect();
    let thinned = downsample(&series, 48);
    assert_eq!(thinned.len(), 48);
    assert_eq!(thinned[0], 0.0, "should start at the oldest sample");
    assert_eq!(*thinned.last().unwrap(), 167.0, "must end at the current price");
}

#[test]
fn downsample_leaves_short_series_alone() {
    let series = vec![1.0, 2.0, 3.0];
    assert_eq!(downsample(&series, 48), series);
}

#[test]
fn floating_point_steps_decide_the_samples() {
    let series: Vec<f64> = (0..30).map(f64::from).collect();
    assert_eq!(downsample(&series, 22)[11], 14.0);
}

#[test]
fn thinning_only_shortens() {
    assert!(thinning_needed(168, 48));
    assert!(!thinning_needed(48, 48));
    assert!(!thinning_needed(3, 48));
    assert!(!thinning_needed(10, 0));
    assert_eq!(SPARK_POINTS, 48);
}

#[test]
fn thin_at_takes_the_picks_and_ends_at_the_latest() {
    let series: Vec<u32> = (0..10).collect();
    assert_eq!(thin_at(&series, &[0, 2, 5, 7]), vec![0, 2, 5, 9]);
    assert_eq!(thin_at(&series, &[3]), vec![9]);
    assert_eq!(thin_at(&series, &[42, 0]), vec![9, 9]);
    assert_eq!(thin_at(&series, &[]), Vec::<u32>::new());
    assert_eq!(thin_at::<u32>(&[], &[0, 1]), Vec::<u32>::new());
}

#[test]
fn no_ids_means_no_request() {
    assert!(markets_url(&[], "usd").is_none());
}

#[test]
fn one_request_covers_every_coin() {
    let url = markets_url(&strings(&["bitcoin", "ethereum", "solana"]), "eur").unwrap();
    assert_eq!(
        url,
        "https://api.coingecko.com/api/v3/coins/markets?vs_currency=eur&ids=bitcoin,ethereum,solana&sparkline=true&price_change_percentage=24h"
    );
}

#[test]
fn statuses_are_classified() {
    assert_eq!(classify_status(429), StatusVerdict::RateLimited);
    assert_eq!(classify_status(200), StatusVerdict::Accepted);
    assert_eq!(classify_status(299), StatusVerdict::Accepted);
    assert_eq!(classify_status(404), StatusVerdict::Failed);
    assert_eq!(classify_status(503), StatusVerdict::Failed);
}

#[test]
fn unknown_id_is_dropped_and_order_follows_the_request() {
    let ids = strings(&["solana", "definitely-not-a-coin", "bitcoin"]);
    let markets = strings(&["bitcoin", "solana"]);
    assert_eq!(select_markets(&ids, &markets, &[true, true]), vec![1, 0]);
}

#[test]
fn market_without_a_price_is_dropped() {
    let ids = strings(&["bitcoin", "ethereum"]);
    let markets = strings(&["ethereum", "bitcoin"]);
    assert_eq!(select_markets(&ids, &markets, &[true, false]), vec![0]);
}

#[test]
fn the_first_market_with_an_id_is_used() {
    let ids = strings(&["bitcoin"]);
    let markets = strings(&["bitcoin", "bitcoin"]);
    assert_eq!(select_markets(&ids, &markets, &[false, true]), Vec::<usize>::new());
    assert_eq!(select_markets(&ids, &markets, &[true, true]), vec![0]);
}

#[test]
fn tickers_are_uppercased() {
    assert_eq!(ticker_of("btc"), "BTC");
    assert_eq!(ticker_of("wbtc.e"), "WBTC.E");
}
