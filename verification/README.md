# ellipsys_runner_core

The order-routing core of the Ellipsys runner, verified with Verus.

- `src/` — the library: broker adapters (`brokers/`), the runner's
  configuration (`config.rs`), the portal protocol (`portal_client.rs`), the
  polling loop's decisions (`poller.rs`), a plain JSON model (`json.rs`) and
  string utilities (`text.rs`). Amounts are carried as the decimal text of
  the number.
- `app/` — the headless runner: environment, HTTP, the IBKR sidecar process,
  and the loop that performs the library's actions.
- `tests/` — scenario tests of the library.
