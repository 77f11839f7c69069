//! The commands: what they decide, and the lines that they print.
pub mod account;
pub mod reports;
pub mod remote;
pub mod send;
pub mod source;
pub mod sync;
pub mod probe;
pub mod doctor;
pub mod dispatch;
