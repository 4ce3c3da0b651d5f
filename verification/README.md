# polymarket_mm_bot

Decision logic of a paper market-making bot for the five-minute BTC Up/Down
markets of Polymarket, verified with Verus.

- `src/` — the verified library:
  - `config.rs`: which role (radar or executor) a node runs, from
    `BOT_ROLE` / `AWS_REGION`;
  - `types.rs`: the one-byte radar signals and their wire encoding;
  - `volatility.rs`: the sliding time window of samples behind the
    volatility estimate, with its window laws;
  - `executor.rs`: the per-tick gate of the quoting loop (kill pause, panic
    stop), market roll-over and the save cadence;
  - `dashboard.rs`: request-path extraction, routing and HTTP answers of the
    monitoring server;
  - `text.rs`: character-level string helpers.
- `tests/` — tests of the library.
- `app/` — the runtime around it: environment and configuration, the TCP
  dashboard server, and the floating-point pricing (Black-Scholes), risk
  (Avellaneda-Stoikov), volatility and paper-inventory engines.
