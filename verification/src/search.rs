//! Turning whatever the user typed into a CoinGecko coin id.
//!
//! The input is tried as an id first; only if that finds nothing does the applet
//! search, and then it picks the best of the search results.

use vstd::prelude::*;
use vstd::string::*;
use crate::text::{lowercase, lowercase_of, str_eq, white_space, is_white_space, push_char};

verus! {

/// One entry of CoinGecko's search results.
#[derive(Debug, Clone)]
pub struct SearchCoin {
    pub id: String,
    pub symbol: String,
    pub market_cap_rank: Option<u32>,
}

/// The rank a coin is ordered by; unranked coins sort last rather than first.
pub open spec fn rank_of(c: SearchCoin) -> u32 {
    match c.market_cap_rank {
        Some(r) => r,
        None => u32::MAX,
    }
}

/// The coin's ticker, lowercased, is the query.
pub open spec fn ticker_matches(c: SearchCoin, query: Seq<char>) -> bool {
    lowercase_of(c.symbol@) == query
}

/// The coin's id, lowercased, is the query.
pub open spec fn id_matches(c: SearchCoin, query: Seq<char>) -> bool {
    lowercase_of(c.id@) == query
}

/// Whether a coin takes part in a ranking: every coin, or only exact tickers.
pub open spec fn eligible(c: SearchCoin, query: Seq<char>, tickers_only: bool) -> bool {
    !tickers_only || ticker_matches(c, query)
}

/// `j` is the first of the best-ranked eligible coins among the first `n`.
pub open spec fn first_lowest_rank(
    coins: Seq<SearchCoin>,
    query: Seq<char>,
    tickers_only: bool,
    j: int,
    n: int,
) -> bool {
    &&& 0 <= j < n
    &&& eligible(coins[j], query, tickers_only)
    &&& forall|k: int|
        0 <= k < n && eligible(#[trigger] coins[k], query, tickers_only) ==> rank_of(coins[j])
            <= rank_of(coins[k])
    &&& forall|k: int|
        0 <= k < j && eligible(#[trigger] coins[k], query, tickers_only) ==> rank_of(coins[j])
            < rank_of(coins[k])
}

/// Some coin among the first `n` takes part in the ranking.
pub open spec fn any_eligible(coins: Seq<SearchCoin>, query: Seq<char>, tickers_only: bool, n: int) -> bool {
    exists|k: int| 0 <= k < n && eligible(#[trigger] coins[k], query, tickers_only)
}

/// `j` is the first coin whose id, lowercased, is the query.
pub open spec fn first_id_match(coins: Seq<SearchCoin>, query: Seq<char>, j: int) -> bool {
    &&& 0 <= j < coins.len()
    &&& id_matches(coins[j], query)
    &&& forall|k: int| 0 <= k < j ==> !id_matches(#[trigger] coins[k], query)
}

/// The position that the best match is taken from: an exact ticker match with the
/// best market-cap rank, else the first exact id match, else the best-ranked coin.
pub open spec fn is_best_match(coins: Seq<SearchCoin>, query: Seq<char>, j: int) -> bool {
    let n = coins.len() as int;
    if any_eligible(coins, query, true, n) {
        first_lowest_rank(coins, query, true, j, n)
    } else if exists|k: int| 0 <= k < n && id_matches(#[trigger] coins[k], query) {
        first_id_match(coins, query, j)
    } else {
        first_lowest_rank(coins, query, false, j, n)
    }
}

/// Whether a coin's lowercased ticker is `query`.
fn ticker_is(c: &SearchCoin, query: &str) -> (b: bool)
    ensures
        b == ticker_matches(*c, query@),
{
    let lower = lowercase(c.symbol.as_str());
    str_eq(lower.as_str(), query)
}

/// Whether a coin's lowercased id is `query`.
fn id_is(c: &SearchCoin, query: &str) -> (b: bool)
    ensures
        b == id_matches(*c, query@),
{
    let lower = lowercase(c.id.as_str());
    str_eq(lower.as_str(), query)
}

/// The first of the best-ranked coins, among all coins or among the exact tickers.
fn lowest_rank_index(coins: &[SearchCoin], query: &str, tickers_only: bool) -> (r: Option<usize>)
    ensures
        match r {
            Some(j) => first_lowest_rank(coins@, query@, tickers_only, j as int, coins@.len() as int),
            None => !any_eligible(coins@, query@, tickers_only, coins@.len() as int),
        },
{
    let mut best: Option<usize> = None;
    let mut best_rank: u32 = 0;
    let mut i: usize = 0;
    while i < coins.len()
        invariant
            i <= coins@.len(),
            match best {
                Some(j) => first_lowest_rank(coins@, query@, tickers_only, j as int, i as int)
                    && best_rank == rank_of(coins@[j as int]),
                None => !any_eligible(coins@, query@, tickers_only, i as int),
            },
        decreases coins.len() - i,
    {
        let c = &coins[i];
        let takes_part = if tickers_only {
            ticker_is(c, query)
        } else {
            true
        };
        if takes_part {
            let rank: u32 = match c.market_cap_rank {
                Some(r) => r,
                None => u32::MAX,
            };
            match best {
                Some(j) => {
                    if rank < best_rank {
                        best = Some(i);
                        best_rank = rank;
                    }
                },
                None => {
                    best = Some(i);
                    best_rank = rank;
                },
            }
        }
        proof {
            let ghost n = (i + 1) as int;
            match best {
                Some(j) => {
                    assert(first_lowest_rank(coins@, query@, tickers_only, j as int, n));
                },
                None => {
                    assert(!any_eligible(coins@, query@, tickers_only, n));
                },
            }
        }
        i += 1;
    }
    best
}

/// Prefers an exact ticker match, then an exact id match, then whatever ranks
/// highest by market cap. Searching `btc` should land on Bitcoin, not on a wrapped
/// derivative that happens to contain the string.
pub fn pick_best_match(coins: &[SearchCoin], query: &str) -> (r: Option<String>)
    ensures
        match r {
            Some(id) => exists|j: int| is_best_match(coins@, query@, j) && id@ == coins@[j].id@,
            None => coins@.len() == 0,
        },
{
    let ghost n = coins@.len() as int;
    match lowest_rank_index(coins, query, true) {
        Some(j) => {
            assert(is_best_match(coins@, query@, j as int));
            return Some(coins[j].id.clone());
        },
        None => {},
    }
    let mut i: usize = 0;
    while i < coins.len()
        invariant
            i <= coins@.len(),
            !any_eligible(coins@, query@, true, coins@.len() as int),
            forall|k: int| 0 <= k < i ==> !id_matches(#[trigger] coins@[k], query@),
        decreases coins.len() - i,
    {
        if id_is(&coins[i], query) {
            assert(first_id_match(coins@, query@, i as int));
            assert(is_best_match(coins@, query@, i as int));
            return Some(coins[i].id.clone());
        }
        i += 1;
    }
    match lowest_rank_index(coins, query, false) {
        Some(j) => {
            assert(is_best_match(coins@, query@, j as int));
            Some(coins[j].id.clone())
        },
        None => {
            if coins.len() > 0 {
                assert(eligible(coins@[0], query@, false));
            }
            None
        },
    }
}


/// `first_lowest_rank` picks out a single position.
pub proof fn lemma_lowest_rank_unique(
    coins: Seq<SearchCoin>,
    query: Seq<char>,
    tickers_only: bool,
    j1: int,
    j2: int,
    n: int,
)
    requires
        first_lowest_rank(coins, query, tickers_only, j1, n),
        first_lowest_rank(coins, query, tickers_only, j2, n),
    ensures
        j1 == j2,
{
    if j1 < j2 {
        assert(eligible(coins[j1], query, tickers_only));
    } else if j2 < j1 {
        assert(eligible(coins[j2], query, tickers_only));
    }
}

/// There is exactly one best match: the id that `pick_best_match` returns is
/// fully determined by the search results and the query.
pub proof fn lemma_best_match_unique(coins: Seq<SearchCoin>, query: Seq<char>, j1: int, j2: int)
    requires
        is_best_match(coins, query, j1),
        is_best_match(coins, query, j2),
    ensures
        j1 == j2,
{
    let n = coins.len() as int;
    if any_eligible(coins, query, true, n) {
        lemma_lowest_rank_unique(coins, query, true, j1, j2, n);
    } else if exists|k: int| 0 <= k < n && id_matches(#[trigger] coins[k], query) {
        if j1 < j2 {
            assert(id_matches(coins[j1], query));
        } else if j2 < j1 {
            assert(id_matches(coins[j2], query));
        }
    } else {
        lemma_lowest_rank_unique(coins, query, false, j1, j2, n);
    }
}

/// An exact ticker always wins: whenever some result's lowercased ticker is the
/// query, the best match is such a result, the best-ranked of them (unranked ones
/// counting as last), and the first of those equally ranked, whatever the ids and
/// ranks of the other results.
pub proof fn lemma_ticker_match_wins(coins: Seq<SearchCoin>, query: Seq<char>, j: int)
    requires
        is_best_match(coins, query, j),
        exists|k: int| 0 <= k < coins.len() && lowercase_of(#[trigger] coins[k].symbol@) == query,
    ensures
        0 <= j < coins.len(),
        lowercase_of(coins[j].symbol@) == query,
        forall|k: int|
            0 <= k < coins.len() && lowercase_of(#[trigger] coins[k].symbol@) == query ==> rank_of(
                coins[j],
            ) <= rank_of(coins[k]),
        forall|k: int|
            0 <= k < j && lowercase_of(#[trigger] coins[k].symbol@) == query ==> rank_of(coins[j])
                < rank_of(coins[k]),
{
    let k = choose|k: int| 0 <= k < coins.len() && lowercase_of(#[trigger] coins[k].symbol@) == query;
    assert(eligible(coins[k], query, true));
    assert(any_eligible(coins, query, true, coins.len() as int));
    assert forall|k: int|
        0 <= k < coins.len() && lowercase_of(#[trigger] coins[k].symbol@) == query implies rank_of(
            coins[j],
        ) <= rank_of(coins[k]) by {
        assert(eligible(coins[k], query, true));
    }
    assert forall|k: int|
        0 <= k < j && lowercase_of(#[trigger] coins[k].symbol@) == query implies rank_of(coins[j])
            < rank_of(coins[k]) by {
        assert(eligible(coins[k], query, true));
    }
}

/// With no exact ticker, an exact id comes next: the best match is the first result
/// whose lowercased id is the query.
pub proof fn lemma_id_match_comes_next(coins: Seq<SearchCoin>, query: Seq<char>, j: int)
    requires
        is_best_match(coins, query, j),
        forall|k: int| 0 <= k < coins.len() ==> lowercase_of(#[trigger] coins[k].symbol@) != query,
        exists|k: int| 0 <= k < coins.len() && lowercase_of(#[trigger] coins[k].id@) == query,
    ensures
        0 <= j < coins.len(),
        lowercase_of(coins[j].id@) == query,
        forall|k: int| 0 <= k < j ==> lowercase_of(#[trigger] coins[k].id@) != query,
{
    assert(!any_eligible(coins, query, true, coins.len() as int)) by {
        if any_eligible(coins, query, true, coins.len() as int) {
            let k = choose|k: int| 0 <= k < coins.len() && eligible(#[trigger] coins[k], query, true);
            assert(lowercase_of(coins[k].symbol@) != query);
        }
    }
    let k = choose|k: int| 0 <= k < coins.len() && lowercase_of(#[trigger] coins[k].id@) == query;
    assert(id_matches(coins[k], query));
    assert forall|i: int| 0 <= i < j implies lowercase_of(#[trigger] coins[i].id@) != query by {
        assert(!id_matches(coins[i], query));
    }
}

/// With neither an exact ticker nor an exact id, the best match is the best-ranked
/// result (unranked ones counting as last), the first of those equally ranked.
pub proof fn lemma_rank_decides_the_rest(coins: Seq<SearchCoin>, query: Seq<char>, j: int)
    requires
        is_best_match(coins, query, j),
        forall|k: int| 0 <= k < coins.len() ==> lowercase_of(#[trigger] coins[k].symbol@) != query,
        forall|k: int| 0 <= k < coins.len() ==> lowercase_of(#[trigger] coins[k].id@) != query,
    ensures
        0 <= j < coins.len(),
        forall|k: int| 0 <= k < coins.len() ==> rank_of(coins[j]) <= rank_of(#[trigger] coins[k]),
        forall|k: int| 0 <= k < j ==> rank_of(coins[j]) < rank_of(#[trigger] coins[k]),
{
    assert(!any_eligible(coins, query, true, coins.len() as int)) by {
        if any_eligible(coins, query, true, coins.len() as int) {
            let k = choose|k: int| 0 <= k < coins.len() && eligible(#[trigger] coins[k], query, true);
            assert(lowercase_of(coins[k].symbol@) != query);
        }
    }
    assert(!exists|k: int| 0 <= k < coins.len() && id_matches(#[trigger] coins[k], query)) by {
        if exists|k: int| 0 <= k < coins.len() && id_matches(#[trigger] coins[k], query) {
            let k = choose|k: int| 0 <= k < coins.len() && id_matches(#[trigger] coins[k], query);
            assert(lowercase_of(coins[k].id@) != query);
        }
    }
    assert forall|k: int| 0 <= k < coins.len() implies rank_of(coins[j]) <= rank_of(#[trigger] coins[k]) by {
        assert(eligible(coins[k], query, false));
    }
    assert forall|k: int| 0 <= k < j implies rank_of(coins[j]) < rank_of(#[trigger] coins[k]) by {
        assert(eligible(coins[k], query, false));
    }
}

/// `s` without its leading whitespace.
pub open spec fn trim_start_of(s: Seq<char>) -> Seq<char>
    decreases s.len(),
{
    if s.len() > 0 && white_space(s[0]) {
        trim_start_of(s.drop_first())
    } else {
        s
    }
}

/// `s` without its trailing whitespace.
pub open spec fn trim_end_of(s: Seq<char>) -> Seq<char>
    decreases s.len(),
{
    if s.len() > 0 && white_space(s.last()) {
        trim_end_of(s.drop_last())
    } else {
        s
    }
}

/// `s` without leading or trailing whitespace, as `str::trim` gives it.
pub open spec fn trimmed(s: Seq<char>) -> Seq<char> {
    trim_end_of(trim_start_of(s))
}

/// Removes leading and trailing whitespace.
pub fn trim(s: &str) -> (r: &str)
    ensures
        r@ == trimmed(s@),
{
    let n = s.unicode_len();
    let mut a: usize = 0;
    assert(s@.subrange(0, n as int) =~= s@);
    while a < n && is_white_space(s.get_char(a))
        invariant
            n == s@.len(),
            a <= n,
            trim_start_of(s@) == trim_start_of(s@.subrange(a as int, n as int)),
        decreases n - a,
    {
        assert(s@.subrange(a as int, n as int).drop_first() =~= s@.subrange(a + 1, n as int));
        a += 1;
    }
    assert(trim_start_of(s@) == s@.subrange(a as int, n as int)) by {
        if a == n {
            assert(s@.subrange(a as int, n as int).len() == 0);
        }
    }
    let mut b: usize = n;
    while b > a && is_white_space(s.get_char(b - 1))
        invariant
            n == s@.len(),
            a <= b <= n,
            trimmed(s@) == trim_end_of(s@.subrange(a as int, b as int)),
        decreases b,
    {
        assert(s@.subrange(a as int, b as int).drop_last() =~= s@.subrange(a as int, b - 1));
        b -= 1;
    }
    assert(trimmed(s@) == s@.subrange(a as int, b as int)) by {
        if a == b {
            assert(s@.subrange(a as int, b as int).len() == 0);
        }
    }
    s.substring_char(a, b)
}

/// What a query becomes before it is looked up: trimmed, then lowercased.
pub open spec fn normalized(input: Seq<char>) -> Seq<char> {
    lowercase_of(trimmed(input))
}

/// Trims and lowercases what the user typed. Nothing left over is refused with
/// "nothing to add".
pub fn normalize_query(input: &str) -> (r: Result<String, String>)
    ensures
        r is Err <==> trimmed(input@).len() == 0,
        match r {
            Ok(q) => q@ == normalized(input@) && q@.len() > 0,
            Err(e) => normalized(input@).len() == 0 && e@ == "nothing to add"@,
        },
{
    let t = trim(input);
    let q = lowercase(t);
    if q.as_str().is_empty() {
        Err(String::from_str("nothing to add"))
    } else {
        Ok(q)
    }
}

/// The query read as a CoinGecko id: each space becomes a hyphen.
pub open spec fn slug_form(query: Seq<char>) -> Seq<char> {
    query.map_values(|c: char| if c == ' ' { '-' } else { c })
}

/// Reads a query as a CoinGecko id, replacing each space with a hyphen.
pub fn slug_of(query: &str) -> (r: String)
    ensures
        r@ == slug_form(query@),
        !r@.contains(' '),
        r@.len() == query@.len(),
{
    let n = query.unicode_len();
    let mut r = String::new();
    let mut i: usize = 0;
    while i < n
        invariant
            n == query@.len(),
            i <= n,
            r@ == slug_form(query@.take(i as int)),
        decreases n - i,
    {
        let c = query.get_char(i);
        let d = if c == ' ' {
            '-'
        } else {
            c
        };
        push_char(&mut r, d);
        assert(slug_form(query@.take(i + 1)) =~= slug_form(query@.take(i as int)).push(d));
        i += 1;
    }
    assert(query@.take(n as int) =~= query@);
    assert(!r@.contains(' ')) by {
        if r@.contains(' ') {
            let k = choose|k: int| 0 <= k < r@.len() && r@[k] == ' ';
            assert(r@[k] == (if query@[k] == ' ' { '-' } else { query@[k] }));
        }
    }
    r
}

/// The search endpoint for a query. The query is appended as it stands.
pub open spec fn search_url_for(query: Seq<char>) -> Seq<char> {
    "https://api.coingecko.com/api/v3/search?query="@ + query
}

/// The URL of CoinGecko's search for a query.
pub fn search_url(query: &str) -> (r: String)
    ensures
        r@ == search_url_for(query@),
{
    let mut r = String::from_str("https://api.coingecko.com/api/v3/search?query=");
    r.append(query);
    r
}

/// What resolving a typed coin name needs: the normalized query, the id it is tried
/// as first, and the search to fall back to.
pub struct ResolvePlan {
    pub query: String,
    pub slug: String,
    pub search_url: String,
}

/// Prepares the resolution of what the user typed, or refuses an empty input with
/// "nothing to add" before anything is requested.
pub fn plan_resolve(input: &str) -> (r: Result<ResolvePlan, String>)
    ensures
        r is Err <==> trimmed(input@).len() == 0,
        match r {
            Ok(p) => {
                &&& normalized(input@).len() > 0
                &&& p.query@ == normalized(input@)
                &&& p.slug@ == slug_form(normalized(input@))
                &&& p.search_url@ == search_url_for(normalized(input@))
            },
            Err(e) => normalized(input@).len() == 0 && e@ == "nothing to add"@,
        },
{
    let query = normalize_query(input)?;
    let slug = slug_of(query.as_str());
    let url = search_url(query.as_str());
    Ok(ResolvePlan { query, slug, search_url: url })
}

/// Decides what the lookup of the query as an id settled. `lookup` is the number of
/// quotes that lookup returned, or `None` when it failed. The id stands as soon as
/// the lookup found a coin; otherwise the search has to decide.
pub fn settle_by_id(plan: &ResolvePlan, lookup: Option<usize>) -> (r: Option<String>)
    ensures
        match lookup {
            Some(n) if n > 0 => r is Some && r->0@ == plan.slug@,
            _ => r is None,
        },
{
    match lookup {
        Some(n) => {
            if n > 0 {
                Some(plan.slug.clone())
            } else {
                None
            }
        },
        None => None,
    }
}

/// Picks the id from the search results, or reports "no such coin" when the search
/// returned none.
pub fn settle_by_search(plan: &ResolvePlan, coins: &[SearchCoin]) -> (r: Result<String, String>)
    ensures
        match r {
            Ok(id) => exists|j: int| is_best_match(coins@, plan.query@, j) && id@ == coins@[j].id@,
            Err(e) => coins@.len() == 0 && e@ == "no such coin"@,
        },
{
    match pick_best_match(coins, plan.query.as_str()) {
        Some(id) => Ok(id),
        None => Err(String::from_str("no such coin")),
    }
}

} // verus!
