//! Setup and settings: the config store's only writers. Every write builds a
//! candidate from the store, has it validated and persisted by the caller,
//! and only then publishes it. A refused or failed write applies nothing.
pub mod account;
pub mod change_laws;
pub mod form_laws;
pub mod keys;
pub mod laws;
pub mod overview;
pub mod overview_laws;
pub mod probe;
pub mod refusals;
pub mod requests;
pub mod sections;
pub mod setup;
pub mod store;
pub mod users;
