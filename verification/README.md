# My Little Factory Manager

A deterministic, turn-based deckbuilding game where the player acts as a
factory manager fulfilling contracts from an open market, served as a REST
API with OpenAPI documentation.

## Layout

- `src/` — the game rules, written in Verus and proved against their
  contracts:
  - `game_model.rs` states what every action does to the game, as spec
    functions over a mathematical model (`GameModel`);
  - `game_state.rs` is the executable state machine, proved to follow the
    model (`GameState::dispatch`);
  - `laws.rs` proves properties that span actions: replay determinism,
    refusals that change nothing but the log, the card cycle kept by a
    turn, tier unlocking, the market topped up after each contract;
  - `effect_types.rs`, `contract_generation.rs`, `formulas.rs` generate the
    card effect types and draft contracts from the seeded generator
    (`rng.rs`, over `rand_pcg`);
  - `game_rules.rs`, `card_moves.rs`, `balances.rs`, `metrics.rs`,
    `tier_stats.rs` hold the requirement checks, card movements, token
    balances and session statistics;
  - `docs/` builds the tutorial, hints and designer guide.
- `app/` — the web server (Rocket), the JSON forms of the library's types,
  the configuration files, and the parts computed over real numbers: the
  amounts of variation effects, the adaptive balance overlay and the ratio
  metrics of a session. A contract is drafted in `src/` with every random
  draw it takes; `app/` fills in its real-valued amounts and hands it back
  through `GameState::place_generated`.
- `tests/` — the game's scenarios, run against the compiled library.
