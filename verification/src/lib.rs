//! Verified core of a small linear-regression trainer: the ordering of
//! binary64 values read from their bit patterns, the interactive command
//! line, the progress-bar shape, and the bookkeeping of the descent loop.

pub mod binary64;
pub mod command;
pub mod progress;
pub mod training;
