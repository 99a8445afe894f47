# headroom_stats

The verified core of a terminal dashboard for the Headroom token-optimisation
proxy. The library (`src/`) holds everything the dashboard decides and
computes, each function with a contract that Verus proves:

- `json`: the JSON model of a report, member lookup and dotted paths
  (`jval_u64`), with the laws that a dotted path is cut and looked up piece by
  piece.
- `counts`: a table of named counters (each name once).
- `model`: the statistics report.
- `digits`: decimal rendering and `fmt_num`'s thousands separators.
- `text`: string order, sorting, substring search.
- `pricing`: list prices per model family, in cents per million tokens.
- `dashboard`: the figures of each panel (summary, per-model table, cache,
  router, TOIN, title line).
- `state`: the dashboard's state, how events and keys change it.
- `endpoint`: the proxy's address and the URLs asked there.

`app/` is the program around it: command line, HTTP polling with tokio and
reqwest, JSON decoding with serde, drawing with ratatui and crossterm, and the
floating-point figures (percentages, milliseconds, dollar amounts).
