//! A decision engine for trading one instrument.
//!
//! A series of indicator values becomes a crossing signal (`crossover`), a
//! counselor turns signals into advice (`counselor`), an oracle makes one
//! decision of the advice of several counselors (`strategy`), and the agent
//! turns decisions into orders and applies their fills to its ledger
//! (`chrysus`). A backtest replays a history through a fresh agent
//! (`backtest`). What holds of every run of the agent is proved in `laws`.
//!
//! Prices, quantities and capital are fixed-point numbers (`fixed`). The
//! series of the indicators are computed outside the library: every function
//! that needs them takes an engine, a function from a recipe and a history to
//! the series that the indicator gives over it (`indicators`).

pub mod backtest;
pub mod cache;
pub mod chrysus;
pub mod counselor;
pub mod crossover;
pub mod decimal;
pub mod finance;
pub mod fixed;
pub mod historical_data;
pub mod indicators;
pub mod laws;
pub mod strategy;
pub mod tabs;
pub mod text;
pub mod time;
pub mod utils;
