//! A cancellable, filtered file-system search engine: the matching rules, the
//! metadata filter, the result cache, the search-process registry and the
//! per-entry decisions of the directory walker.

pub mod text;
pub mod options;
pub mod paths;
pub mod filter;
pub mod similarity;
pub mod matching;
pub mod cache;
pub mod process;
pub mod walker;
pub mod session;
pub mod settings;
pub mod category;
pub mod naming;
pub mod commands;
pub mod copies;
