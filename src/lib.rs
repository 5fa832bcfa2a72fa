//! Driver for Futaba character vacuum-fluorescent displays wired to three
//! GPIO output lines (clock, data, strobe).
//!
//! The library decides everything that goes onto the wire: each operation
//! yields a [`Transfer`], a plan of pin writes and pauses together with the
//! rules for reacting to the outcome of each write. Whoever owns the pins
//! performs the steps one at a time and reports back.
pub mod driver;
pub mod error;
pub mod scope;
pub mod transfer;
pub mod wire;

pub use driver::FutabaVFD;
pub use error::GpioError;
pub use scope::{Scope, ScopeStep};
pub use transfer::{Transfer, TransferView};
pub use wire::{Line, Step};
