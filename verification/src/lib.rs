//! In-memory application state for a desktop chat client: the single user's
//! profile and the friend roster, with the query and mutation operations a
//! UI process invokes one at a time.
//!
//! The crate is organised leaves first: [`order`] gives the lexicographic
//! order on text that roster listings are sorted by, [`model`] holds the data
//! model, [`sort`] the stable email sort, [`store`] the state store with its
//! command operations, and [`loader`] the bootstrap conversion from the two
//! JSON documents read at startup.

pub mod loader;
pub mod model;
pub mod order;
pub mod sort;
pub mod store;
