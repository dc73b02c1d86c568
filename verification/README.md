# risk_guard

Risk Guard is an autonomous paper-trading agent for the Kraken CLI that puts
risk management first: every decision passes five guards (cooldown,
drawdown, volatility, RSI, spread) before an order is placed.

## Layout

- `src/` — the verified library (Verus):
  - `agent.rs` — the agent loop as a state machine: what the program does
    next, step by step (dead man's switch first in every cycle, pairs, report
    cadence, sleep, stop);
  - `risk.rs` — risk levels, the guard cascade, position allowance, per-pair
    cooldowns, and the laws that tie them together;
  - `executor.rs` — what to do with a decision, the book of open positions
    (one per pair), the bounded execution log and its queries;
  - `market.rs` — the Kraken CLI command lines, the judgement of a reply
    (empty, not JSON, error), the dead man's switch, candle-history trimming,
    the trades of a history reply;
  - `brain.rs` — the action vocabulary and the cleaning of AI replies;
  - `config.rs` — settings read from the environment;
  - `social.rs` — session statistics;
  - `text.rs` — white space, fences, substring search, decimal numerals;
  - `indicators.rs` — the volatility-regime vocabulary.
- `app/` — the program: process and HTTP I/O, JSON decoding, the indicators
  and every other computation on `f64` prices, the terminal dashboard, and the
  loop that performs the steps the library chooses.
- `tests/` — tests of the library.

The library never sees a price: the program measures each indicator and hands
the library its zone (for example "drawdown at or above the hard limit"); the
library decides the guards, the verdict, the allowance and the cooldowns.
