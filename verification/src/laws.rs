//! What the library promises, stated on the fields and places of what was read
//! and of what is handed out.
pub mod addresses;
pub mod captures;
pub mod commands;
pub mod identities;
pub mod listings;
pub mod messages;
pub mod outputs;
pub mod texts;
pub mod transactions;
pub mod views;
pub mod windows;
