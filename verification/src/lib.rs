//! An inventory ledger: warehouses, the stock items they hold, and the
//! identifier pools that number both, kept in ordered stable maps.
//!
//! `ledger` holds the operations, `model` what each of them does to the
//! ledger's state, and `laws` what follows for every state. `ids` holds the
//! identifier pools, `record` the records and errors, `message` the text of
//! an error, and `store` the two stable maps.

pub mod ids;
pub mod laws;
pub mod ledger;
pub mod message;
pub mod model;
pub mod record;
pub mod store;
