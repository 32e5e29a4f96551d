# caglla

The core of a command-line trip planner (trips, itineraries, checklists,
expenses, receipts), written in Verus: every function in `src/` carries a
contract that the verifier proves.

- `src/` — the verified library: money amounts and currency codes, clock
  times, summaries, receipt rules, partial updates, the trip doctor, list
  ordering, Markdown and travel-book texts, terminal views, and where the
  database file lives. Calendar parsing goes through `chrono` behind a few
  trusted wrappers in `src/calendar.rs`.
- `tests/` — tests of the library on concrete values.
- `app/` — the `caglla` program: argument parsing (`clap`), the SQLite
  storage (`rusqlite`), the configuration file (`toml`), JSON output
  (`serde_json`), and printing.
