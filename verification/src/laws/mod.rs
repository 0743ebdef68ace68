//! What holds of the library as a whole.

pub mod answers;
pub mod calls;
pub mod commands;
pub mod driving;
pub mod ending;
pub mod formats;
pub mod guards;
pub mod history;
pub mod keeping;
pub mod lifecycle;
pub mod locking;
pub mod modes;
pub mod records;
pub mod repository;
pub mod store;
pub mod texts;
pub mod transcripts;
pub mod views;
