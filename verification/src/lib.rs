//! A persistent record store for wagers, account holders and wagering events.
//!
//! Records live in three durable ordered maps, one per record type, and draw
//! their identifiers from one persistent counter, so that no two records of
//! any type ever share an identifier. Every operation states in its contract
//! what it returns and how it changes the store, over the store's view: the
//! counter and the three maps from identifier to record.
//!
//! - `model`: the records, the payloads and the errors.
//! - `validate`: the checks of a payload.
//! - `state`: the store as a value, and the outcome of every operation.
//! - `store`: the store itself and its operations.
//! - `laws`: what holds of the outcomes, whatever the store and the input.
//! - `records`, `wire`: how a record is laid out in a slot of its map.
//! - `durable`: the maps and the counter in stable memory.
//! - `text`: blank names and the messages of errors.

pub mod durable;
pub mod laws;
pub mod model;
pub mod records;
pub mod state;
pub mod store;
pub mod text;
pub mod validate;
pub mod wire;
