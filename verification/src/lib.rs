//! Core logic of a transit information sign: a display state machine that
//! cycles through pages of transit data, and a snapshot store that merges
//! per-provider results and answers queries for the latest data.
pub mod color;
pub mod config;
pub mod display;
pub mod fsm;
pub mod input;
pub mod state;
pub mod text;
pub mod transit;
pub mod updates;
