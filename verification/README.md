# trade_engine

The rules of an A-share trading game engine, written in Verus: every function
in `src/` carries a contract that Verus proves.

- `src/plans/` — personal trading plans as a state machine (`state`,
  `revision`, `validation`, `book`), the laws they keep (`laws`), and the
  policies around them: urgency and pauses, quote decisions, soft cash
  budgets, candidate scoring and position targets.
- `src/session/` — the session's own rules: market facts, daily candles and
  the deterministic random stream (`market`), the synthetic preset history
  (`preset_candles`), the opening call auction — its clearing price, order
  routing and cancellation, matching and the staging of its remainders
  (`auction`, `auction_routing`, `auction_match`, `remainders`), execution
  bookkeeping (`execution`, `reservations`, `audit`, `valuation`), the
  reconciliation of desired intents with working orders (`reconciliation`),
  parent orders of large accounts (`parent_orders`), the arithmetic of the
  decision chain and the signals it assesses (`decision_chain`), the plan
  decision per candidate stock, its application to the plan book and the
  landing of restructures once their child is cancelled (`plan_lifecycle`), the capping of NPC orders to available cash
  (`budget`), the session setup checks (`setup`), the opening figures and
  operating flow of listed companies (`company_figures`), NPC quote lifetimes and the attention
  schedule (`quote_lifetime`, `attention_queue`), the civil-day clock with
  its dates and trading calendar (`civil_date`, `civil_clock`), the mirror of
  company schedules into the clock (`company_operations`), the 18:00
  disclosure step and its schedule of report slots (`disclosures`), events and the state hash (`events`).
- `src/code_order.rs` — the order of stock codes and sorted sets of codes.
- `src/rounding.rs` — rounding of integer ratios, half to even.
- `tests/` — scenarios run against the compiled library.
- `app/` — JSON and TypeScript shapes of saved state, error messages, field
  hashing of serialized projections, and the floating-point parts: NPC cash
  sampling, abnormal-move signals and the daily limit in basis points.
