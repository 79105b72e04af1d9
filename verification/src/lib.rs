//! Window identity and focus rules for a Hyprland session.
pub mod address;
pub mod capture;
pub mod command;
pub mod focus;
pub mod guarantees;
pub mod identity;
pub mod laws;
pub mod layout;
pub mod outcome;
pub mod records;
pub mod refusal;
pub mod registry;
pub mod select;
pub mod text;
pub mod transaction;
pub mod windows;
