//! Utilities shared by the HAL's drivers: a slice holder that interrupt
//! handlers can read while the application replaces its contents.
//!
//! `protocol` holds the verified model of the two cells behind such a holder
//! and the order in which they are written; `util` holds the holder itself.

pub mod protocol;
pub mod util;
