# factor_engine

Point-in-time bookkeeping for a quantitative stock research engine, written in
Verus. Every function in `src/` carries a contract that Verus proves; the
library makes no call into an outside crate and has no trusted item.

## Layout

- `src/dates.rs`: `YYYYMMDD` calendar arithmetic (quarter ends, month and day
  shifts, Monday-based week ends).
- `src/intraday_time.rs`: reading intraday clock times.
- `src/table.rs`, `src/panel.rs`: column tables and the date-by-instrument
  panel grid.
- `src/financial_pit.rs`: point-in-time indexes of financial statements,
  readers that see only disclosed versions, and event schedules (statement
  disclosures and dividend dates).
- `src/main_business.rs`: the main business breakdown rows by stock and
  period, and the latest industry breakdown of the original disclosure.
- `src/financial_marker.rs`: canonical event markers of a snapshot's inputs.
- `src/snapshot_cache.rs`: per-stock snapshot caches that recompute only when
  a marker changes.
- `src/event_cache.rs`: laying factor series on the panel and replaying the
  latest cross-section of slow factors between events.
- `src/column_layout.rs`: spreading per-date and index columns over the
  panel grid.
- `src/cross_section.rs`: SW industry classification intervals.
- `src/catalog.rs`, `src/raw_ids.rs` and the factor family modules
  (`dbzq_*`, `gfzq_*`, `gaussian_*`, `hazq_*`, `earnings_reaction`,
  `financial_similarity`): factor definitions, data requests, request
  planning and the event markers of each family.
- `tests/`: ordinary Rust tests of the library.
- `app/`: the floating-point helpers of the factor families, which Verus does
  not reason about.
