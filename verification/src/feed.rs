//! What the applet shows between refreshes, and how each refresh changes it.
//!
//! A failed refresh never blanks the panel: the last good quotes stay, marked stale.
//! Only when there is nothing to show at all is the failure itself shown.

use vstd::prelude::*;
use vstd::string::*;
use crate::config::Config;
use crate::text::{views, same_strings};

verus! {

/// The quotes on screen and the state of the refresh that replaces them.
#[derive(Debug, Clone)]
pub struct Feed<Q> {
    /// Latest successful quotes. Retained across failed refreshes so the panel keeps
    /// showing the last known prices rather than going blank.
    pub quotes: Vec<Q>,
    /// Set when the most recent refresh failed while `quotes` still holds older data.
    pub stale: bool,
    /// Set when there is nothing to show at all.
    pub error: Option<String>,
    /// A refresh is in flight.
    pub loading: bool,
}

/// The reason a refresh gives for not replacing the quotes: its error, or that it
/// came back empty.
pub open spec fn failure_reason<Q>(result: Result<Vec<Q>, String>) -> Seq<char> {
    match result {
        Err(e) => e@,
        Ok(_) => "no quotes returned"@,
    }
}

/// A refresh that brought quotes to show.
pub open spec fn brought_quotes<Q>(result: Result<Vec<Q>, String>) -> bool {
    match result {
        Ok(q) => q@.len() > 0,
        Err(_) => false,
    }
}

impl<Q> Feed<Q> {
    /// What holds between any two refreshes: an error is only shown when there are
    /// no quotes, and only quotes that are on screen can be stale.
    pub open spec fn consistent(&self) -> bool {
        &&& self.quotes@.len() > 0 ==> self.error is None
        &&& self.stale ==> self.quotes@.len() > 0
    }

    /// Nothing fetched yet, nothing in flight.
    pub fn new() -> (f: Self)
        ensures
            f.quotes@.len() == 0,
            !f.stale,
            f.error is None,
            !f.loading,
            f.consistent(),
    {
        Feed { quotes: Vec::new(), stale: false, error: None, loading: false }
    }

    /// Starts from the quotes kept from an earlier run, with nothing in flight.
    pub fn from_cache(quotes: Vec<Q>) -> (f: Self)
        ensures
            f.quotes@ == quotes@,
            !f.stale,
            f.error is None,
            !f.loading,
            f.consistent(),
    {
        Feed { quotes, stale: false, error: None, loading: false }
    }

    /// Marks a refresh as started. Returns whether one should be started at all:
    /// not while another is still in flight.
    pub fn begin_refresh(&mut self) -> (start: bool)
        ensures
            start == !old(self).loading,
            final(self).loading,
            final(self).quotes@ == old(self).quotes@,
            final(self).stale == old(self).stale,
            final(self).error == old(self).error,
            old(self).consistent() ==> final(self).consistent(),
    {
        if self.loading {
            false
        } else {
            self.loading = true;
            true
        }
    }

    /// Takes in the outcome of a refresh.
    ///
    /// New quotes replace the old ones and clear any stale mark or error. A failed or
    /// empty refresh keeps whatever was already on screen: if anything was, it is
    /// marked stale; if nothing was, the reason is shown instead. Returns whether the
    /// quotes were replaced, which is when they are worth keeping for the next run.
    pub fn finish_refresh(&mut self, result: Result<Vec<Q>, String>) -> (replaced: bool)
        ensures
            replaced == brought_quotes(result),
            !final(self).loading,
            brought_quotes(result) ==> {
                &&& final(self).quotes@ == result->Ok_0@
                &&& !final(self).stale
                &&& final(self).error is None
            },
            !brought_quotes(result) ==> {
                &&& final(self).quotes@ == old(self).quotes@
                &&& old(self).quotes@.len() > 0 ==> final(self).stale && final(self).error
                    == old(self).error
                &&& old(self).quotes@.len() == 0 ==> final(self).stale == old(self).stale
                    && final(self).error is Some && final(self).error->0@ == failure_reason(
                    result,
                )
            },
            old(self).consistent() ==> final(self).consistent(),
    {
        self.loading = false;
        let ghost reason = failure_reason(result);
        let failure: String = match result {
            Ok(quotes) => {
                if quotes.len() > 0 {
                    self.quotes = quotes;
                    self.stale = false;
                    self.error = None;
                    return true;
                }
                String::from_str("no quotes returned")
            },
            Err(e) => e,
        };
        assert(failure@ == reason);
        if self.quotes.len() == 0 {
            self.error = Some(failure);
        } else {
            self.stale = true;
        }
        false
    }
}

/// Whether a change of settings calls for a new fetch: the tracked coins or the
/// currency changed.
pub fn config_needs_refetch(old_config: &Config, new_config: &Config) -> (r: bool)
    ensures
        r == (views(new_config.coins@) != views(old_config.coins@) || new_config.currency@
            != old_config.currency@),
{
    !same_strings(new_config.coins.as_slice(), old_config.coins.as_slice())
        || !new_config.currency.eq(&old_config.currency)
}

} // verus!
