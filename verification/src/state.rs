//! Persistent state of the program.

pub mod escrow;

pub use escrow::Escrow;
