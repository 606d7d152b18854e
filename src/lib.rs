//! The data engine of a personal productivity application: tasks, notes,
//! goals and study sessions held in one store, with the null-tolerant
//! operations that foreign callers reach in `boundary`.
pub mod boundary;
pub mod goals;
pub mod ident;
pub mod laws;
pub mod models;
pub mod notes;
pub mod sessions;
pub mod store;
pub mod tasks;
