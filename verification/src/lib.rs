//! Routing of proxy connections by country: the table of country codes, the
//! topology database, and the state machine that picks the node to dial.
pub mod address;
pub mod config;
pub mod connecter;
pub mod country;
pub mod database;
pub mod database_laws;
pub mod message;
pub mod text;
