//! Progress tracking for a running game process: decoding of remote arrays,
//! snapshot diffing of fixed-layout records, pointer rebinding of dependent
//! records, and an at-most-once completion ledger for split events.

pub mod array;
pub mod engine;
pub mod flags;
pub mod game_data;
pub mod ledger;
pub mod milestones;
pub mod session;
pub mod settings;
pub mod timing;
