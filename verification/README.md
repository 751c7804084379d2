# aimux_lib

The decision logic of the AIMux model gateway, verified with Verus, and a
program around it.

- `src/` — the library, verified by Verus. Most of its functions carry
  contracts that state what they do; the clock and path readers promise
  nothing of their result. It covers account choice and ranking (`dao`),
  request and response reading for the gateway (`gateway::dto`), multiplier monitoring (`service::multiplier_*`),
  the account monitor's decisions (`background::monitor_task`), settings and
  time windows (`config`, `service::settings_service`, `utils::time`), and the
  text and JSON models they rest on (`text`, `json`). Calls into `serde_json`,
  `rust_decimal`, `reqwest`'s URL type, `chrono` and `directories` go through
  small trusted wrappers whose contracts are stated beside them.
- `tests/` — tests of the library.
- `app/` — the gateway program: settings file, SQLite store, HTTP API,
  upstream HTTP and background jobs, calling the library for every decision.

Multipliers are kept as the IEEE-754 bits of their `f64` values inside the
library; the program converts at its edges.
