//! What holds across the library: what each operation is for, stated of its results.
pub mod accounts;
pub mod answers;
pub mod calling;
pub mod commands;
pub mod composing;
pub mod keys;
pub mod measuring;
pub mod modes;
pub mod moments;
pub mod operations;
pub mod queue;
pub mod reading;
pub mod replying;
pub mod reporting;
pub mod saying;
pub mod sending;
pub mod showing;
pub mod starting;
pub mod styling;
pub mod texts;
pub mod trying;
pub mod wording;
