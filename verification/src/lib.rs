//! A verified data-access layer for a "stations" table: storage records that
//! carry a secret key, public views that never expose it, and the create /
//! read / update / delete operations over the table, each with a contract.

pub mod station;
pub mod table;
mod rng;
pub mod json;
