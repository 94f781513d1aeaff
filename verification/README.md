# futures_orderbook

An order-book and trade engine for Binance USDⓈ-M Futures (BTCUSDT
perpetual), with recording, replay and audit of sessions, microstructure
analytics and a heatmap server. The library under `src/` is verified with
Verus; `app/` is the program around it.

## Layout

- `src/orderbook/`: price/quantity text in exact integer ticks (`level`),
  the order book (`book`), the depth synchronizer (`synchronizer`: buffer,
  snapshot reconciliation, `pu` continuity) and the live book that applies
  the synchronizer's decisions (`live`).
- `src/trades/`: trade normalization (aggressor side, marker events) and the
  trade processor (4096-id FIFO duplicate window, ordering, counters).
- `src/analytics/`: the shadow book, trade flow and volume profile,
  liquidity changes and replenishment, large trades, clusters, sweep and
  absorption evidence, the heatmap with its frames, deltas and digest, and
  the engine (`engine`): its state, the routing of each book event and each
  trade through the trackers, and its interval counters, crossed-book state
  and snapshot clock.
- `src/recording/`, `src/storage/`, `src/replay/`, `src/verify.rs`: row
  builders and pending batches of the recorder, the stored row types, the
  reconstruction of a recorded session, its replay core and the web
  replay's per-event feed (`replay::feed`), and the session audit.
- `src/diagnostics/`, `src/config.rs`, `src/server.rs`,
  `src/server_replay.rs`, `src/binance/`: the diagnostics display, endpoint
  URLs, server back-pressure and replay control, wire types and the
  reconnection backoff.
- `app/`: command line, WebSocket and REST clients, ClickHouse storage,
  the recording worker, the analytics engine's floating-point scores and
  snapshot prices, the replay pacing and the web server.
- `tests/`: unit and scenario tests of the library.

Laws of the library are public proof functions next to the code they speak
of (`lemma_reconcile_chain`, `lemma_repeat_is_duplicate`,
`lemma_price_text_round_trip`, `lemma_stable_sort`, ...).
