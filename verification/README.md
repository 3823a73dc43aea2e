# ferrum

An options-trading daemon for a small cash account, with a terminal and a
web dashboard. The decision logic is a library verified with Verus; the
program around it does the I/O.

## Layout

- `src/` — the verified library (`ferrum`):
  - `fixed`, `text` — four-decimal fixed-point numbers, decimal parsing and
    formatting;
  - `config`, `error`, `types`, `db` — configuration, errors, shared types;
  - `clock` — epoch days, Eastern-time trading and scan windows;
  - `indicators`, `strategy` — regime classification, confluence scoring,
    setup screening, contract filters, candidate ranking and sizing;
  - `risk` — the entry risk guard;
  - `pdt` — pattern-day-trader bookkeeping and the same-day exit gate;
  - `exit_monitor`, `orders` — exit rules, close orders, order outcomes;
  - `iv_rank` — IV rank from snapshots or the historical-volatility proxy;
  - `ipc`, `tui`, `web` — the control protocol, the dashboard state and
    key bindings, the web API's request checks;
  - `report` — ISO weeks and per-day fill totals of the weekly review.
- `app/` — the `ferrum` program: daemon, dashboards, report and export,
  with the HTTP, SQLite, socket and terminal I/O and the floating-point
  indicator arithmetic.
- `tests/` — tests of the library on concrete values.

Prices, percentages and indicator readings are fixed-point integers with
four decimals (`12.5%` is `125_000`); timestamps are microseconds since the
Unix epoch.
