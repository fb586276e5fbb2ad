//! Light-client verification core for cross-chain communication.
//!
//! The library tracks the state of a remote chain through validated
//! identifiers, monotonically increasing heights, a client update state
//! machine, and structured lifecycle events whose attributes survive
//! several independent wire encodings.

pub mod errors;
pub mod height;
pub mod ident;
pub mod text;
pub mod hexcode;
pub mod events;
pub mod codec;
pub mod grandpa;
pub mod machine;
pub mod query;

pub use errors::Error;
pub use height::Height;
