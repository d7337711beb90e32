//! The powers of beta times G of a universal structured reference string (SRS),
//! the bookkeeping of which of them are held in memory, and the plans that tell a
//! caller which further blocks of powers must be fetched to serve a request.

pub mod codec;
pub mod constants;
pub mod errors;
pub mod laws;
pub mod math;
pub mod powers_of_beta_g;
pub mod powers_of_g;
pub mod schedule;
