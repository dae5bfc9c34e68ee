//! A fan-out merge of asynchronous sequences, and the rules of a batch file
//! renamer built on it.

pub mod cli;
pub mod error_handler;
pub mod fs;
pub mod recursive_streams;
pub mod select_map;
pub mod source;
pub mod sources;
pub mod stats;
