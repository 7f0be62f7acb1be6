//! A per-owner agenda: contacts and appointments kept under an owner identity,
//! with bounded text fields and a day-granular civil date parser.
pub mod calendar;
pub mod laws;
pub mod pallet;
pub mod text;
pub mod types;
