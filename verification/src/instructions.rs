//! The operations on an escrow, each with the accounts it is bound to.

pub mod make;
pub mod refund;
pub mod take;
pub mod take_dif_prog;

pub use make::{Make, MakeBumps, MakeKeys};
pub use refund::{Refund, RefundKeys};
pub use take::{Take, TakeKeys, TokenInterface};
pub use take_dif_prog::TakeDifProg;
