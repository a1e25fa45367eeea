# letsgetbackrusty

A watcher of crypto markets: it asks Binance and CoinMarketCap for
prices, listings and token contracts, and stores them in PostgreSQL.

- `src/` is the verified library (Verus): request URLs, the symbol query
  and the law that it splits back into the symbols, the filtering of
  tokens, their database records, the decimal text of ranks, and the
  state machine of the daily round of requests.
- `app/` is the program around it: actors, HTTP server, requests and
  database access.
