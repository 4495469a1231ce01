//! Quantity-and-unit evaluation core of an arbitrary-precision calculator.
//!
//! Given an identifier string (`km`, `kg`, `F`, a quoted ad-hoc unit), the
//! resolver produces a physical quantity: a numeric magnitude tagged with a
//! dimensional unit shape. Resolution consults a registry of unit
//! definitions, falls back from exact to case-insensitive matching, and
//! finally attempts SI-style prefix decomposition. The crate also defines
//! the numeric error taxonomy shared by the calculator's arithmetic, and a
//! cancellation-aware bridge for long-running rendering operations.

pub mod context;
pub mod error;
pub mod interrupt;
pub mod num;
pub mod registry;
pub mod strutil;
pub mod units;
