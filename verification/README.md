# mercado

The core of a market-data, options and portfolio service, written in Verus: the
rules are executable Rust whose contracts Verus proves.

## Layout

- `src/` — the verified library.
  - `text`, `time`, `decimal` — character sequences, calendar days and instants as
    integers, and decimals as a mantissa and a scale (arithmetic by `rust_decimal`,
    behind trusted wrappers).
  - `domain/` — portfolios (event log, positions, cash, FIFO tax lots, realized
    gains), tracked tickers, option-chain diagnostics, gamma-exposure exclusions,
    option-volatility eligibility, historical-volatility ordering and states,
    data-refresh runs, sector catalog.
  - `application/` — the use cases' decisions: ticker checks, scenario days and
    default expirations, leg matching, the data-refresh and tracked-ticker
    synchronization state machines, refresh origins and retries, sector windows,
    enrichment outcomes, price sources.
  - `yahoo` — Yahoo Finance requests, symbols, status classification and the
    live-price subscription protocol.
  - `views`, `scheduler`, `live_prices`, `http_ports` — listings, reports and the
    collaborator groups of the HTTP interface.
- `tests/` — tests of the library on concrete values.
- `app/` — ordinary Rust around the library: conversions from `chrono` and
  `rust_decimal`, Yahoo Finance HTTP and WebSocket plumbing, serde copies of library
  types, the loops that perform the state machines' steps, and the floating-point
  computations (Black-Scholes, gamma exposure, volatility, yield-curve splines).
