//! The verified core of the mail clients.
pub mod absorb;
pub mod account_work;
pub mod accounts;
pub mod actions;
pub mod bench;
pub mod body;
pub mod cache;
pub mod cli;
pub mod compose;
pub mod dates;
pub mod display;
pub mod dto;
pub mod envelope;
pub mod laws;
pub mod panes;
pub mod printed;
pub mod protocol;
pub mod quote;
pub mod recipients;
pub mod settings;
pub mod shell;
pub mod signature;
pub mod spike;
pub mod text;
pub mod trial;
pub mod utf8;
pub mod worker;
pub mod writing;
