//! Player progression library: a rank ladder with advancement thresholds,
//! a pure level-up decision engine, and a keyed in-memory player store
//! with create/read/update/delete operations and an atomic level-up.

pub mod engine;
pub mod models;
pub mod rank;
pub mod store;
