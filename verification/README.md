# watcher

The logic of a film and television diary that reads the TMDB service, keeps
plays, a watchlist and credits in SQLite, and recommends what to watch next.

- `src/` is the verified library (Verus):
  - `json` — JSON values as plain data, with the lookups the diary uses;
  - `text` — equality, joining, searching, space escaping, decimal integers;
  - `tmdb` — the request URLs, search results, keywords, credits fallback;
  - `credits` — cast and crew read from credits answers, one crew entry per
    person and role for shows;
  - `catalog` — the rows stored for films, shows, seasons and episodes,
    schema upgrades, watch order, the watchlist toggle, dashboard totals;
  - `embedding` — the text describing a title, and the byte layout of stored
    embeddings;
  - `recommend` — the candidate pool of the recommendation strategies;
  - `ranking` — the final order of recommendations;
  - `models` — the records without floating-point fields.
- `app/` holds the SQLite store, the HTTP client, the sentence model and the
  commands; they call the library for every rule.
- `tests/` runs the library on concrete values.
