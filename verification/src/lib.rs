//! Screen Memory: the rules of a local, rolling screen recorder.

pub mod capture;
pub mod catalog;
pub mod clock;
pub mod config;
pub mod deletion;
pub mod event;
pub mod export;
pub mod order;
pub mod query;
pub mod reading;
pub mod removal;
pub mod rotation;
pub mod runtime;
pub mod segment;
pub mod status;
pub mod text;
