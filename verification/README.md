# market_surveillance

A verified core for a capital-market surveillance platform made of several
services: anomaly detection over a cache of recent queries, case management,
an entity-relationship graph, regulatory reports, Slack notifications, a
surveillance dashboard, trade data analysis and UPSI (unpublished price
sensitive information) tracking.

## Layout

- `src/` — the library, verified with Verus. Each service has a module
  (`anomaly`, `cases`, `entities`, `reports`, `slack`, `dashboard`, `trades`,
  `upsi`, plus `counter` and `webserver` for the two services that only carry
  state). `text` holds the character-level operations they share (decimal
  rendering and parsing, search, replacement, splitting, trimming, joining),
  `listing` the generic ordered listings and upserts of the dashboard, and
  `json` the JSON objects built with `serde_json`.
  Every public function states its result over spec functions; the `law_*`
  proof functions state the properties that relate several operations.
- `tests/` — tests of the library on concrete values.
- `app/` — the platform side: contract objects, HTTP and cross-contract calls,
  serde forms of the exchanged data, the tool and prompt descriptions, and the
  floating-point heuristics (price statistics, RSI levels, volume ratios,
  percentage changes).
