//! Incremental funding-rate synchronization engine.
//!
//! The library normalizes perpetual-futures market metadata, funding-rate
//! history and open-interest/volume statistics from several exchanges into a
//! canonical model, and models their idempotent persistence. The pieces are:
//! window resolution (`time_windows`), tolerant JSON field decoding (`json`),
//! per-exchange normalizers (`paradex`, `extended`), the fetch orchestration
//! state machine (`orchestrator`), and the set-based first-write-wins store
//! model (`store`).

pub mod args;
pub mod decimal;
pub mod extended;
pub mod json;
pub mod model;
pub mod orchestrator;
pub mod paradex;
pub mod scheduler;
pub mod store;
pub mod text;
pub mod time_windows;
