use cosmic_ext_applet_crypto::search::{
    normalize_query, pick_best_match, plan_resolve, settle_by_id, settle_by_search, slug_of,
    trim, SearchCoin,
};

fn coin(id: &str, symbol: &str, rank: Option<u32>) -> SearchCoin {
    SearchCoin { id: id.to_owned(), symbol: symbol.to_owned(), market_cap_rank: rank }
}

#[test]
fn exact_ticker_beats_a_higher_ranked_partial_match() {
    // Searching "btc" must not land on a wrapped derivative.
    let coins = vec![
        coin("bitget-wrapped-btc", "BGBTC", Some(316)),
        coin("bitcoin", "BTC", Some(1)),
    ];
    assert_eq!(pick_best_match(&coins, "btc").as_deref(), Some("bitcoin"));
}

#[test]
fn exact_ticker_picks_the_largest_by_market_cap() {
    let coins = vec![
        coin("fake-ada", "ADA", Some(9000)),
        coin("cardano", "ADA", Some(18)),
    ];
    assert_eq!(pick_best_match(&coins, "ada").as_deref(), Some("cardano"));
}

#[test]
fn unranked_coins_do_not_win_by_default() {
    let coins = vec![
        coin("obscure", "OBS", None),
        coin("solana", "SOL", Some(7)),
    ];
    assert_eq!(pick_best_match(&coins, "sol").as_deref(), Some("solana"));
}

#[test]
fn empty_search_results_yield_nothing() {
    assert!(pick_best_match(&[], "btc").is_none());
}

#[test]
fn exact_id_is_taken_when_no_ticker_matches() {
    let coins = vec![
        coin("hedera-token", "HTK", Some(3)),
        coin("hedera-hashgraph", "HBAR", Some(40)),
    ];
    assert_eq!(
        pick_best_match(&coins, "hedera-hashgraph").as_deref(),
        Some("hedera-hashgraph")
    );
}

#[test]
fn without_any_exact_match_the_best_ranked_wins() {
    let coins = vec![
        coin("a", "AAA", None),
        coin("b", "BBB", Some(50)),
        coin("c", "CCC", Some(20)),
        coin("d", "DDD", Some(20)),
    ];
    assert_eq!(pick_best_match(&coins, "zzz").as_deref(), Some("c"));
}

#[test]
fn equally_ranked_tickers_keep_the_first() {
    let coins = vec![
        coin("first", "ETH", Some(2)),
        coin("second", "ETH", Some(2)),
    ];
    assert_eq!(pick_best_match(&coins, "eth").as_deref(), Some("first"));
}

#[test]
fn unranked_ticker_still_beats_ranked_non_ticker() {
    let coins = vec![
        coin("bitcoin", "BTC", Some(1)),
        coin("sol-clone", "SOL", None),
    ];
    assert_eq!(pick_best_match(&coins, "sol").as_deref(), Some("sol-clone"));
}

#[test]
fn trim_strips_both_ends() {
    assert_eq!(trim("  btc \t\n"), "btc");
    assert_eq!(trim("   "), "");
    assert_eq!(trim("a b"), "a b");
}

#[test]
fn queries_are_trimmed_and_lowercased() {
    assert_eq!(normalize_query("  BTC ").as_deref(), Ok("btc"));
    assert_eq!(normalize_query("Bitcoin Cash").as_deref(), Ok("bitcoin cash"));
}

#[test]
fn blank_query_is_refused() {
    assert_eq!(normalize_query(" \t "), Err("nothing to add".to_string()));
    assert!(plan_resolve("").is_err());
}

#[test]
fn spaces_become_hyphens_in_the_slug() {
    assert_eq!(slug_of("bitcoin cash"), "bitcoin-cash");
    assert_eq!(slug_of("hedera-hashgraph"), "hedera-hashgraph");
}

#[test]
fn plan_carries_query_slug_and_search() {
    let plan = plan_resolve("  Shiba Inu ").unwrap();
    assert_eq!(plan.query, "shiba inu");
    assert_eq!(plan.slug, "shiba-inu");
    assert_eq!(plan.search_url, "https://api.coingecko.com/api/v3/search?query=shiba inu");
}

#[test]
fn a_found_id_settles_without_searching() {
    let plan = plan_resolve("bitcoin").unwrap();
    assert_eq!(settle_by_id(&plan, Some(1)).as_deref(), Some("bitcoin"));
    assert_eq!(settle_by_id(&plan, Some(0)), None);
    assert_eq!(settle_by_id(&plan, None), None);
}

#[test]
fn search_settles_on_the_best_match_or_refuses() {
    let plan = plan_resolve("ADA").unwrap();
    let coins = vec![coin("fake-ada", "ADA", Some(9000)), coin("cardano", "ADA", Some(18))];
    assert_eq!(settle_by_search(&plan, &coins).as_deref(), Ok("cardano"));
    assert_eq!(settle_by_search(&plan, &[]), Err("no such coin".to_string()));
}

#[test]
fn blank_input_is_refused_whatever_the_whitespace() {
    assert!(plan_resolve("\u{3000}\t\u{a0}").is_err());
    assert!(plan_resolve(" x ").is_ok());
}
