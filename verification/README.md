# cycle_orc

The verified core of a plugin orchestrator for market-data analytics: the
C-ABI endpoint protocol its plugins speak, the shared memory stream router,
timeframe resampling, timestamp and clock formatting, the interactive and web
shell command languages, memory dumps, request signing for the exchange API,
and the decisions of the market-data, analytics and paper-trading plugins.

## Layout

- `src/` — the library, written in Verus. Nearly every function carries a
  contract and is proved against it; the exceptions are `MemoryRouter::new`,
  `LockFreeBuffer::pop` and `LockFreeBuffer::is_empty`, whose results depend
  on state shared with other threads. Public proof functions state the laws
  that tie several functions together (identifier round trips, candle
  partitions, bounded histories, calendar fields, timestamps that drop
  seconds and follow time, timeframe normalization, the paper exchange's
  running flag, word splitting, sorted plugin lists, signature shape).
  - `endpoint`, `plugin_abi`, `gateway`, `gateway_feed`, `analyzer`,
    `paper`, `signing`: the plugin protocol and the per-plugin decisions.
  - `json`, `config`, `start_params`, `export`: JSON documents read and
    written through serde_json, start payloads and the parameters plugins
    read from them, exported plugin output.
  - `memory`, `queue`, `history`, `trades`, `settings`: shared state.
  - `resample`, `clock`: time buckets, candles and calendar text.
  - `shell`, `calc`, `words`, `text`, `json_value`: command and field
    parsing.
  - `hexdump`, `help`, `console`, `library`: console output, plugin library
    names and start-up decisions.
- `tests/` — ordinary Rust tests of the library.
- `app/` — the program around the library: the interactive shell loop, the
  plugin library scan, the web console's wire format, and the
  floating-point indicators, detectors and backtests.
