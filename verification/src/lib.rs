//! Key remapping core: a configuration of one activation target and a list of
//! text shortcuts, the classification of raw key signals, and the dispatch
//! engine that turns each event into at most one action.
//!
//! The library performs no effect itself. It decides which effects are due and
//! hands them back as values; the program around it opens resources, injects
//! text, watches the cancellation flag and owns the signal channel.

pub mod config;
pub mod load;
pub mod signal;
pub mod engine;
