//! Pair-programming commit attribution over a key-value configuration store.
//!
//! Author records, the email domain and the roster of active initials live in a
//! store; this crate resolves initials to authors, rotates the roster, and works out
//! which author and committer a commit credits.
pub mod author;
pub mod config;
pub mod error;
pub mod laws;
pub mod text;
pub mod together;

pub use author::Author;
pub use together::GitTogether;
