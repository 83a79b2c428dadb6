# mizan

The core of a personal wealth app — portfolio health, allocation by
taxonomy, zakat, loan amortization, stock-split adjustment, net-worth
snapshots and daily briefs, notifications, entitlements, duplicate-asset
detection, Plaid transaction mapping and per-account ingest, and the agent's
draft-building tools —
written in Verus, with each operation's contract proved.

Money is held as rust_decimal figures (`decimal::Dec`: mantissa and scale);
the arithmetic is rust_decimal's own, reached through a small set of
trusted wrappers whose contracts say what the crate's source guarantees.

Layout:

- `src/` — the verified library, one module per area; each module states
  its model as spec functions and proves its functions and laws against it.
- `tests/` — tests of the library on concrete values.
- `app/` — the `mizan-demo-mode` command and the glue that stays outside
  the library: HTTP calls, the ingest loop over the activity service,
  spreadsheet reading, and what is computed in floating point (insights
  rules, price technicals, position values, size labels).
