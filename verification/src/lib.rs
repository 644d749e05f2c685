//! Lifecycle and parameters of loadable units.
//!
//! A host loads a unit in three steps: it checks the unit's descriptor, it
//! builds the unit's parameter store, and it drives the unit through its
//! lifecycle with a controller. The functions of this crate are verified
//! against contracts over mathematical models of the data they work on. One
//! thing is assumed and not proved: what `core::str::from_utf8` returns, as
//! stated in [`text`].

pub mod text;
pub mod param;
pub mod store;
pub mod shared;
pub mod descriptor;
pub mod log;
pub mod registration;
pub mod lifecycle;
pub mod units;
