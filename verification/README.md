# bot

The verified core of a Solana token-sniffing and trading bot, written in
Verus. Every function in `src/` carries a contract that Verus proves.

## Layout

- `src/` — the library:
  - `sniffer/` — the hot path over raw transaction bytes: sanity checks,
    the program prefilter, candidate extraction, telemetry counters, the
    subscription retry schedule and the supervisor's lifecycle.
  - `engine.rs`, `buy_engine.rs` — the trading engine's decisions (control
    states, candidate verdicts, send retries, the trading mode), its
    metrics and their Prometheus text, the learned backoff, the transaction
    queue, tips, security validation and cross-chain settings.
  - `position_tracker.rs` — one position per mint, bought and sold amounts.
  - `rate_limit.rs`, `circuit_breaker.rs`, `security/` — rate limits,
    the circuit breaker, mint and signature validation.
  - `components/` — signal provenance identifiers, the path pruner, agent
    coordination and the GUI bridge types.
  - `gui/` — the monitoring dashboard's model (price histories, selection).
  - `config.rs`, `observability.rs`, `structured_logging.rs`, `metrics.rs` —
    configuration defaults, correlation ids, log records, metric names.
  - `strings.rs`, `text.rs`, `whitespace.rs`, `encoding.rs`, `stats.rs`,
    `pattern_match.rs` — text search and building, line and word splitting,
    base58, base64 and SHA-256, order statistics, and the regular-expression
    subset the path patterns are written in.
- `tests/` — tests of the library.
- `app/` — the program around the library: command line, configuration
  files, logging, Prometheus registration and its HTTP endpoint, the engine
  loop (with simulated buys), the asynchronous sniffer service and its
  supervisor, the path pruner's file walking, the GUI snapshot
  provider, and the floating-point computations (volume analytics, P&L,
  percentiles at fractional ranks, the learning agents, signal anomaly
  scores).

Outside crates (`dashmap`, `smallvec`, `bs58`, `base64`, `sha2`, `uuid`, `rand`,
`tokio`'s broadcast channel and parts of `std`) are called through small
trusted wrappers whose contracts are stated next to them.
