# cosmic-ext-applet-crypto

Live cryptocurrency prices in the panel of the COSMIC desktop. This crate holds the
applet's logic as a library whose behaviour is stated in Verus contracts and proved.

- `src/` — the library, verified by Verus:
  - `config` — settings, their defaults, the effective coin list, the clamped refresh
    period and the coin the panel shows;
  - `search` — turning a typed coin name into a CoinGecko id: normalisation, the id it
    is tried as, the search fallback and the ranking of search results;
  - `market` — the `coins/markets` request, HTTP status handling, matching the response
    back to the requested ids, and thinning the seven-day sparkline;
  - `display` — currency prefixes, grouped prices, the panel label and layout, and the
    sparkline's SVG document;
  - `feed` — what is on screen across refreshes (stale quotes, errors, one refresh at a
    time) and when a settings change calls for a new fetch;
  - `cache` — the clock, the age of cached quotes, and whether they serve startup
    without a request;
  - `text` — string helpers shared by the others.
- `app/` — the applet itself: the COSMIC window and widgets, HTTP requests, the cache
  file, and the floating-point rendering of prices and sparkline coordinates.
- `tests/` — tests of the library.
