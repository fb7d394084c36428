//! The applet's settings and the values derived from them.

use vstd::prelude::*;
use vstd::string::*;
use crate::text::{views, clone_all, str_eq};

verus! {

/// How much detail the panel label carries. Panel width is scarce, so this is tuned
/// separately from the popup, which always shows full precision.
#[derive(Debug, Clone, Copy, PartialEq, Eq, Structural)]
pub enum PanelStyle {
    /// Icon + compact price + short change.
    Icon,
    /// Compact price + short change, no icon.
    Compact,
    /// Compact price only, the narrowest option.
    Minimal,
    /// Ticker + grouped price + two-decimal change.
    Full,
}

impl Default for PanelStyle {
    fn default() -> (s: Self)
        ensures
            s == PanelStyle::Icon,
    {
        PanelStyle::Icon
    }
}


/// The coins tracked when the stored list is empty.
pub open spec fn default_coins() -> Seq<Seq<char>> {
    seq!["bitcoin"@, "ethereum"@, "binancecoin"@, "ripple"@, "solana"@]
}

/// The polling period in seconds, held between 30 seconds and an hour.
pub open spec fn clamped_refresh_secs(secs: u64) -> u64 {
    if secs < 30 {
        30
    } else if secs > 3600 {
        3600
    } else {
        secs
    }
}

/// The clamp keeps every setting inside 30 seconds through an hour as it is, and
/// moves one outside that range to the nearer end.
pub proof fn lemma_clamp_keeps_allowed_periods(secs: u64)
    ensures
        30 <= secs <= 3600 ==> clamped_refresh_secs(secs) == secs,
        secs < 30 ==> clamped_refresh_secs(secs) == 30,
        secs > 3600 ==> clamped_refresh_secs(secs) == 3600,
        30 <= clamped_refresh_secs(secs) <= 3600,
{
}

/// What `Duration::from_secs` returns for a number of seconds.
pub uninterp spec fn duration_of_secs(secs: u64) -> std::time::Duration;

/// Calls `Duration::from_secs`, which depends on its argument alone.
#[verifier::external_body]
fn duration_from_secs(secs: u64) -> (d: std::time::Duration)
    ensures
        d == duration_of_secs(secs),
{
    std::time::Duration::from_secs(secs)
}

/// The applet's stored settings.
#[derive(Debug, Clone)]
pub struct Config {
    /// CoinGecko coin slugs to track.
    pub coins: Vec<String>,
    /// Fiat currency code prices are quoted in.
    pub currency: String,
    /// Which coin the panel label shows. Falls back to the first coin if unset or
    /// no longer in `coins`.
    pub panel_coin: String,
    /// How much detail the panel label carries.
    pub panel_style: PanelStyle,
    /// Seconds between refreshes. Clamped on read so a bad value cannot hammer the API.
    pub refresh_secs: u64,
}

impl Default for Config {
    fn default() -> (c: Self)
        ensures
            views(c.coins@) == default_coins(),
            c.currency@ == "usd"@,
            c.panel_coin@ == "bitcoin"@,
            c.panel_style == PanelStyle::Icon,
            c.refresh_secs == 60,
    {
        let mut coins: Vec<String> = Vec::new();
        coins.push(String::from_str("bitcoin"));
        coins.push(String::from_str("ethereum"));
        coins.push(String::from_str("binancecoin"));
        coins.push(String::from_str("ripple"));
        coins.push(String::from_str("solana"));
        let c = Config {
            coins,
            currency: String::from_str("usd"),
            panel_coin: String::from_str("bitcoin"),
            panel_style: PanelStyle::Icon,
            refresh_secs: 60,
        };
        assert(views(c.coins@) =~= default_coins());
        c
    }
}

impl Config {
    /// The coins to display: the stored list, or the defaults when it is empty.
    pub open spec fn effective_coin_ids(self) -> Seq<Seq<char>> {
        if self.coins@.len() == 0 {
            default_coins()
        } else {
            views(self.coins@)
        }
    }

    /// The coin the panel shows: the configured one while it is tracked, otherwise
    /// the first tracked coin.
    pub open spec fn panel_coin_id(self) -> Seq<char> {
        if self.effective_coin_ids().contains(self.panel_coin@) {
            self.panel_coin@
        } else {
            self.effective_coin_ids()[0]
        }
    }

    /// The coins to display, falling back to the defaults when the stored list is
    /// empty. An empty list is treated as "unset" rather than as a choice, so
    /// removing every coin cannot leave the applet blank.
    pub fn effective_coins(&self) -> (r: Vec<String>)
        ensures
            views(r@) == self.effective_coin_ids(),
            r@.len() > 0,
    {
        let r = if self.coins.len() == 0 {
            Self::default().coins
        } else {
            clone_all(&self.coins)
        };
        assert(views(r@).len() == r@.len());
        assert(default_coins().len() == 5);
        r
    }

    /// The polling period in seconds, clamped to 30 seconds through an hour.
    pub fn refresh_period_secs(&self) -> (secs: u64)
        ensures
            secs == clamped_refresh_secs(self.refresh_secs),
            30 <= self.refresh_secs <= 3600 ==> secs == self.refresh_secs,
            self.refresh_secs < 30 ==> secs == 30,
            self.refresh_secs > 3600 ==> secs == 3600,
    {
        if self.refresh_secs < 30 {
            30
        } else if self.refresh_secs > 3600 {
            3600
        } else {
            self.refresh_secs
        }
    }

    /// The polling period. CoinGecko's public tier is rate limited, so it is
    /// never shorter than 30 seconds, nor longer than an hour.
    pub fn refresh_interval(&self) -> (d: std::time::Duration)
        ensures
            d == duration_of_secs(clamped_refresh_secs(self.refresh_secs)),
            30 <= self.refresh_secs <= 3600 ==> d == duration_of_secs(self.refresh_secs),
            30 <= clamped_refresh_secs(self.refresh_secs) <= 3600,
    {
        let secs = self.refresh_period_secs();
        duration_from_secs(secs)
    }

    /// The coin the panel should display, tolerating a stale `panel_coin`. Since the
    /// effective coin list is never empty, there is always one.
    pub fn effective_panel_coin(&self) -> (r: Option<String>)
        ensures
            r is Some,
            r->0@ == self.panel_coin_id(),
            self.effective_coin_ids().contains(r->0@),
    {
        let coins = self.effective_coins();
        let ghost ids = self.effective_coin_ids();
        let mut i: usize = 0;
        while i < coins.len()
            invariant
                i <= coins@.len(),
                views(coins@) == ids,
                ids == self.effective_coin_ids(),
                forall|k: int| 0 <= k < i ==> #[trigger] coins@[k]@ != self.panel_coin@,
            decreases coins.len() - i,
        {
            if coins[i].eq(&self.panel_coin) {
                assert(views(coins@)[i as int] == coins@[i as int]@);
                assert(ids[i as int] == self.panel_coin@);
                assert(ids.contains(self.panel_coin@));
                return Some(coins[i].clone());
            }
            i += 1;
        }
        assert(!ids.contains(self.panel_coin@)) by {
            if ids.contains(self.panel_coin@) {
                let k = choose|k: int| 0 <= k < ids.len() && ids[k] == self.panel_coin@;
                assert(views(coins@)[k] == coins@[k]@);
            }
        }
        assert(views(coins@)[0] == coins@[0]@);
        assert(ids.contains(ids[0]));
        Some(coins[0].clone())
    }
}

} // verus!
