# dlss5_oneclick

The decisions behind a one-click DLSS 5 installer for games, written in Verus
and proved against their contracts:

- `setup` — which setup a game gets (its ladder of setups, the rung it is on,
  what to try next) and why.
- `diagnose` — what the logs a session leaves behind say about why neural
  rendering is or is not running.
- `feeder_cfg` — reading and writing the Feeder's `dlss5-feed.cfg` text.
- `game_overrides` — matching curated per-game overrides and applying them to
  a cfg.
- `cfg_laws` — what writing into a cfg promises about reading it back.
- `text`, `num`, `game`, `advice`, `perf` — the string and number handling the
  rest is specified over, the inspected game, the message texts, and the
  performance-log limits.

`app/` is the ordinary Rust around the library: file and environment access,
the curated JSON list, and the fractional-number parts (FPS estimates, the
fractional knobs) that the library does not hold. `tests/` runs the library
on concrete cases.
