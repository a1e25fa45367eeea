//! Verified core of a crypto-market watcher: request URLs, symbol
//! queries, the filtering of token addresses and the steps of the daily
//! fetch.
pub mod fetch_crypto;
pub mod fetch_new_crypto;
pub mod serialize_own_vec;
pub mod database;
pub mod grading_machine_actor;
pub mod system_actors_fetching;
