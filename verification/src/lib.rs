//! Adjudication of one movement turn of the board game Diplomacy.
//!
//! A batch of order descriptors is read, handed to the `diplomacy` crate for
//! adjudication, and answered with one result record per descriptor. The
//! records are audited before they are returned. The retreats of the
//! dislodged units are then settled from those records.

pub mod audit;
pub mod batch;
pub mod engine;
pub mod order;
pub mod outcome;
pub mod record;
pub mod region;
pub mod retreat;
pub mod summary;
pub mod text;
pub mod turn;
pub mod unit;

pub use crate::turn::adjudicate_with_input;
