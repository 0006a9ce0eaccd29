//! # My Little Factory Manager
//!
//! A deterministic, turn-based deckbuilding game where the player acts as a
//! factory manager fulfilling contracts from an open market.
//!
//! This crate holds the game's rules as verified code: card and token
//! bookkeeping, contract requirement checks, the game state machine, the
//! combinatorial effect-type generator, contract drafting and metrics.

pub mod action_log;
pub mod balances;
pub mod card_moves;
pub mod config;
pub mod config_loader;
pub mod contract_generation;
pub mod docs;
pub mod effect_types;
pub mod formulas;
pub mod game_model;
pub mod game_rules;
pub mod game_state;
pub mod laws;
pub mod rule_laws;
pub mod metrics;
pub mod names;
pub mod rng;
pub mod starter_cards;
pub mod tier_stats;
pub mod types;
pub mod version;
