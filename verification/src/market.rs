//! Turning one `coins/markets` response into the quotes the applet shows.
//!
//! One request covers every tracked coin. The response is matched back against the
//! ids that were asked for, so quotes come out in the order the user chose, and a
//! coin the API did not know about is dropped without affecting the others.

use vstd::prelude::*;
use vstd::string::*;
use crate::text::{views, first_index, lemma_first_index, lemma_first_index_found, joined, join, uppercase, uppercase_of};

verus! {

/// Sparkline points kept after downsampling. 168 hourly samples is far more detail
/// than a 64px-wide graph can show.
pub const SPARK_POINTS: usize = 48;

/// The `coins/markets` request for the given ids, priced in `vs`, with the 24h
/// change and the seven-day sparkline.
pub open spec fn markets_url_for(ids: Seq<Seq<char>>, vs: Seq<char>) -> Seq<char> {
    "https://api.coingecko.com/api/v3/coins/markets?vs_currency="@ + vs + "&ids="@ + joined(
        ids,
        ","@,
    ) + "&sparkline=true&price_change_percentage=24h"@
}

/// The request that fetches every coin in `ids` at once, or `None` when there is
/// nothing to fetch: then no request is made and there are no quotes.
pub fn markets_url(ids: &[String], vs: &str) -> (r: Option<String>)
    ensures
        match r {
            Some(url) => ids@.len() > 0 && url@ == markets_url_for(views(ids@), vs@),
            None => ids@.len() == 0,
        },
{
    if ids.len() == 0 {
        return None;
    }
    let mut url = String::from_str("https://api.coingecko.com/api/v3/coins/markets?vs_currency=");
    url.append(vs);
    url.append("&ids=");
    let list = join(ids, ",");
    url.append(list.as_str());
    url.append("&sparkline=true&price_change_percentage=24h");
    Some(url)
}

/// The ticker shown for a market's symbol: the symbol uppercased, as CoinGecko
/// reports tickers in lowercase.
pub fn ticker_of(symbol: &str) -> (r: String)
    ensures
        r@ == uppercase_of(symbol@),
{
    uppercase(symbol)
}

/// How an HTTP status settles a request.
#[derive(Debug, Clone, Copy, PartialEq, Eq, Structural)]
pub enum StatusVerdict {
    /// 429: CoinGecko's rate limit, reported as such.
    RateLimited,
    /// Any other status outside 200..=299.
    Failed,
    /// A success status: the body is to be read.
    Accepted,
}

/// Classifies an HTTP status code.
pub fn classify_status(code: u16) -> (v: StatusVerdict)
    ensures
        v == (if code == 429 {
            StatusVerdict::RateLimited
        } else if 200 <= code <= 299 {
            StatusVerdict::Accepted
        } else {
            StatusVerdict::Failed
        }),
{
    if code == 429 {
        StatusVerdict::RateLimited
    } else if 200 <= code && code <= 299 {
        StatusVerdict::Accepted
    } else {
        StatusVerdict::Failed
    }
}

/// The market that supplies the quote for a requested id: the first market with that
/// id, provided it carries a price.
pub open spec fn market_for(market_ids: Seq<Seq<char>>, priced: Seq<bool>, id: Seq<char>) -> Option<int> {
    match first_index(market_ids, id) {
        Some(m) => if priced[m] {
            Some(m)
        } else {
            None
        },
        None => None,
    }
}

/// For each requested id, in request order, the market its quote is taken from;
/// ids without a priced market are skipped.
pub open spec fn selected(ids: Seq<Seq<char>>, market_ids: Seq<Seq<char>>, priced: Seq<bool>) -> Seq<int> {
    ids.filter_map(|id: Seq<char>| market_for(market_ids, priced, id))
}

/// The ids that get a quote: those with a priced market in the response.
pub open spec fn quoted_ids(ids: Seq<Seq<char>>, market_ids: Seq<Seq<char>>, priced: Seq<bool>) -> Seq<Seq<char>> {
    ids.filter(|id: Seq<char>| market_for(market_ids, priced, id) is Some)
}

/// Quotes come out in the order the ids were requested, and the ids that were not
/// known to the API, or had no price, are dropped while every other id keeps its
/// quote: the markets chosen carry exactly the quoted ids, in request order.
pub proof fn lemma_quotes_follow_request(ids: Seq<Seq<char>>, market_ids: Seq<Seq<char>>, priced: Seq<bool>)
    ensures
        selected(ids, market_ids, priced).map_values(|m: int| market_ids[m]) == quoted_ids(
            ids,
            market_ids,
            priced,
        ),
    decreases ids.len(),
{
    reveal_with_fuel(Seq::<_>::filter, 1);
    if ids.len() > 0 {
        lemma_quotes_follow_request(ids.drop_last(), market_ids, priced);
        lemma_first_index_found(market_ids, ids.last());
        let rest = selected(ids.drop_last(), market_ids, priced);
        match market_for(market_ids, priced, ids.last()) {
            Some(m) => {
                assert(selected(ids, market_ids, priced) =~= rest + seq![m]);
                assert(selected(ids, market_ids, priced).map_values(|m: int| market_ids[m])
                    =~= rest.map_values(|m: int| market_ids[m]).push(market_ids[m]));
            },
            None => {
                assert(selected(ids, market_ids, priced) =~= rest);
            },
        }
    }
}

/// Finds, for each requested id, the market its quote comes from.
///
/// `market_ids[m]` is the id of the `m`-th market in the response and `priced[m]`
/// whether it carries a current price. The result lists market positions in the
/// order the ids were requested, skipping ids the API did not know about and markets
/// without a price.
pub fn select_markets(ids: &[String], market_ids: &[String], priced: &[bool]) -> (r: Vec<usize>)
    requires
        market_ids@.len() == priced@.len(),
    ensures
        r@.map_values(|m: usize| m as int) == selected(views(ids@), views(market_ids@), priced@),
        forall|k: int| 0 <= k < r@.len() ==> #[trigger] r@[k] < market_ids@.len(),
{
    let ghost mids = views(market_ids@);
    let mut r: Vec<usize> = Vec::new();
    let mut i: usize = 0;
    while i < ids.len()
        invariant
            i <= ids@.len(),
            mids == views(market_ids@),
            market_ids@.len() == priced@.len(),
            r@.map_values(|m: usize| m as int) == selected(views(ids@).take(i as int), mids, priced@),
            forall|k: int| 0 <= k < r@.len() ==> #[trigger] r@[k] < market_ids@.len(),
        decreases ids.len() - i,
    {
        let mut m: usize = 0;
        while m < market_ids.len() && !market_ids[m].eq(&ids[i])
            invariant
                i < ids@.len(),
                m <= market_ids@.len(),
                mids == views(market_ids@),
                forall|k: int| 0 <= k < m ==> #[trigger] mids[k] != ids@[i as int]@,
            decreases market_ids.len() - m,
        {
            m += 1;
        }
        proof {
            lemma_first_index(mids, ids@[i as int]@, m as int);
            let taken = views(ids@).take(i + 1);
            assert(taken.drop_last() =~= views(ids@).take(i as int));
            assert(taken.last() == ids@[i as int]@);
        }
        let ghost before = r@;
        if m < market_ids.len() && priced[m] {
            r.push(m);
            assert(r@.map_values(|m: usize| m as int) =~= before.map_values(|m: usize| m as int) + seq![m as int]);
        }
        i += 1;
    }
    assert(views(ids@).take(ids@.len() as int) =~= views(ids@));
    r
}

/// Whether a series of `len` samples is thinned for a sparkline of `target` points:
/// only when it is longer than that, and a target of zero leaves it alone.
pub fn thinning_needed(len: usize, target: usize) -> (r: bool)
    ensures
        r == (len > target && target > 0),
{
    len > target && target > 0
}

/// The sample that `pick` names, held inside the series.
pub open spec fn clamped_pick(pick: usize, len: nat) -> int {
    if pick < len {
        pick as int
    } else {
        len - 1
    }
}

/// Thins a series to one point per entry of `picks`, always keeping the last sample
/// so the graph ends at the current price.
///
/// `picks[i]` is the sample point `i` is taken from; a pick past the end takes the
/// last sample. The last point is always the latest sample, whatever its pick. The
/// caller spaces the picks evenly over the series.
pub fn thin_at<T: Copy>(values: &[T], picks: &[usize]) -> (r: Vec<T>)
    ensures
        values@.len() == 0 ==> r@.len() == 0,
        values@.len() > 0 ==> {
            &&& r@.len() == picks@.len()
            &&& forall|i: int|
                0 <= i < picks@.len() - 1 ==> #[trigger] r@[i] == values@[clamped_pick(
                    picks@[i],
                    values@.len(),
                )]
            &&& picks@.len() > 0 ==> r@.last() == values@.last()
        },
{
    let n = values.len();
    let mut out: Vec<T> = Vec::new();
    if n == 0 {
        return out;
    }
    let mut i: usize = 0;
    while i < picks.len()
        invariant
            n == values@.len(),
            n > 0,
            i <= picks@.len(),
            out@.len() == i,
            forall|k: int| 0 <= k < i ==> #[trigger] out@[k] == values@[clamped_pick(picks@[k], n as nat)],
        decreases picks.len() - i,
    {
        let pick = picks[i];
        let idx: usize = if pick < n {
            pick
        } else {
            n - 1
        };
        out.push(values[idx]);
        i += 1;
    }
    if picks.len() > 0 {
        let last = values[n - 1];
        out.set(picks.len() - 1, last);
    }
    out
}

} // verus!
