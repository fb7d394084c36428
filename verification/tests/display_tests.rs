use cosmic_ext_applet_crypto::config::{Config, PanelStyle};
use cosmic_ext_applet_crypto::display::{
    change_text, compose_panel_label, currency_prefix, format_rendered_amount, panel_layout, panel_quote,
    sparkline_document, LabelParts, PanelLayout,
};

/// The floating-point half of a popup price: the decimals chosen by magnitude and
/// the magnitude rendered to them, before the library lays the digits out.
fn amount(value: f64) -> String {
    let magnitude = value.abs();
    let decimals = if magnitude >= 1000.0 {
        0
    } else if magnitude >= 1.0 {
        2
    } else if magnitude >= 0.01 {
        4
    } else {
        8
    };
    let rendered = format!("{:.*}", decimals, magnitude);
    format_rendered_amount(&rendered, decimals, value < 0.0)
}

#[test]
fn groups_thousands_and_scales_decimals() {
    assert_eq!(amount(77081.0), "77,081");
    assert_eq!(amount(2413.5), "2,414");
    assert_eq!(amount(675.91), "675.91");
    assert_eq!(amount(1.37), "1.37");
    assert_eq!(amount(0.0841), "0.0841");
}

#[test]
fn sub_cent_prices_drop_their_padding_zeros() {
    // Real values: SHIB and a hypothetical one ending in zeros.
    assert_eq!(amount(0.00000541), "0.00000541");
    assert_eq!(amount(0.000005), "0.000005");
    assert_eq!(amount(0.05), "0.05");
    // The two-decimal range keeps its zeros so ordinary prices stay aligned.
    assert_eq!(amount(675.90), "675.90");
    assert_eq!(amount(675.00), "675.00");
}

#[test]
fn high_denomination_currencies_still_group() {
    // IDR prices are the widest realistic case.
    assert_eq!(amount(1_360_446_498.0), "1,360,446,498");
}

#[test]
fn rendered_digits_are_laid_out() {
    assert_eq!(format_rendered_amount("1234567.891", 2, false), "1,234,567.891");
    assert_eq!(format_rendered_amount("999", 0, true), "-999");
    assert_eq!(format_rendered_amount("1000", 0, true), "-1,000");
    assert_eq!(format_rendered_amount("0.00000000", 8, false), "0");
    assert_eq!(format_rendered_amount("0.10000000", 8, false), "0.1");
    assert_eq!(format_rendered_amount("", 0, false), "");
}

#[test]
fn known_currencies_get_their_symbol() {
    assert_eq!(currency_prefix("usd"), "$");
    assert_eq!(currency_prefix("eur"), "€");
    assert_eq!(currency_prefix("gbp"), "£");
    assert_eq!(currency_prefix("jpy"), "¥");
    assert_eq!(currency_prefix("idr"), "Rp");
}

#[test]
fn other_currencies_fall_back_to_their_code() {
    assert_eq!(currency_prefix("chf"), "CHF ");
    assert_eq!(currency_prefix("USD"), "USD ");
}

#[test]
fn layout_follows_orientation_and_style() {
    assert_eq!(panel_layout(false, PanelStyle::Icon, true), PanelLayout::IconButton);
    assert_eq!(panel_layout(true, PanelStyle::Icon, true), PanelLayout::IconAndText);
    assert_eq!(panel_layout(true, PanelStyle::Icon, false), PanelLayout::IconButton);
    assert_eq!(panel_layout(false, PanelStyle::Compact, true), PanelLayout::TextButton);
    assert_eq!(panel_layout(true, PanelStyle::Full, true), PanelLayout::TextButton);
    assert_eq!(panel_layout(true, PanelStyle::Minimal, false), PanelLayout::IconButton);
}

fn parts(change: bool) -> LabelParts {
    LabelParts {
        symbol: "BTC".to_string(),
        full_price: "77,318".to_string(),
        compact_price: "77.3k".to_string(),
        long_change: change.then(|| "▲ 5.10%".to_string()),
        short_change: change.then(|| "▲ 5.1%".to_string()),
    }
}

#[test]
fn label_follows_the_style() {
    assert_eq!(compose_panel_label(PanelStyle::Full, "$", &parts(true), false, "(stale)"), "BTC $77,318 ▲ 5.10%");
    assert_eq!(compose_panel_label(PanelStyle::Compact, "$", &parts(true), false, "(stale)"), "$77.3k ▲ 5.1%");
    assert_eq!(compose_panel_label(PanelStyle::Icon, "$", &parts(true), false, "(stale)"), "$77.3k ▲ 5.1%");
    assert_eq!(compose_panel_label(PanelStyle::Minimal, "$", &parts(true), false, "(stale)"), "$77.3k");
    assert_eq!(compose_panel_label(PanelStyle::Full, "$", &parts(false), false, "(stale)"), "BTC $77,318");
}

#[test]
fn stale_label_is_marked() {
    assert_eq!(compose_panel_label(PanelStyle::Minimal, "€", &parts(true), true, "(stale)"), "€77.3k (stale)");
}

#[test]
fn panel_shows_the_configured_coin_or_the_first() {
    let mut config = Config::default();
    config.coins = vec!["ethereum".to_string(), "solana".to_string()];
    config.panel_coin = "solana".to_string();
    let ids = vec!["ethereum".to_string(), "solana".to_string()];
    assert_eq!(panel_quote(&config, &ids), Some(1));
    config.panel_coin = "bitcoin".to_string();
    assert_eq!(panel_quote(&config, &ids), Some(0));
    let only_solana = vec!["solana".to_string()];
    assert_eq!(panel_quote(&config, &only_solana), None);
}

#[test]
fn sparkline_needs_two_points_and_uses_the_given_colour() {
    let points: Vec<String> = vec![];
    assert!(sparkline_document(&points, 56, 18, "#4ade80").is_none());
    assert!(sparkline_document(&["1.50,9.00".to_string()], 56, 18, "#4ade80").is_none());
    let svg = sparkline_document(&["1.50,16.50".to_string(), "54.50,1.50".to_string()], 56, 18, "#123456").unwrap();
    let svg = String::from_utf8(svg).unwrap();
    assert_eq!(
        svg,
        r##"<svg xmlns="http://www.w3.org/2000/svg" viewBox="0 0 56 18" width="56" height="18"><polyline points="1.50,16.50 54.50,1.50" fill="none" stroke="#123456" stroke-width="1.5" stroke-linecap="round" stroke-linejoin="round"/></svg>"##
    );
}

#[test]
fn sparkline_sizes_are_written_in_decimal() {
    let points = vec!["0,0".to_string(), "1,1".to_string()];
    let svg = String::from_utf8(sparkline_document(&points, 240, 0, "red").unwrap()).unwrap();
    assert!(svg.contains("viewBox=\"0 0 240 0\""));
    let svg = String::from_utf8(sparkline_document(&points, 4294967295, 10, "red").unwrap()).unwrap();
    assert!(svg.contains("width=\"4294967295\" height=\"10\""));
}

#[test]
fn change_text_separates_arrow_from_value() {
    assert_eq!(change_text("▲", "6.28%"), "▲ 6.28%");
    assert_eq!(change_text("▼", "1.5%"), "▼ 1.5%");
    assert_eq!(change_text("•", "0.0%"), "• 0.0%");
}
