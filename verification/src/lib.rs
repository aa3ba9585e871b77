//! A line-oriented pattern search engine: matching, highlighting and
//! per-source aggregation of the lines of a text that a pattern matches.

pub mod aggregator;
pub mod highlight;
pub mod matcher;
pub mod paint;
pub mod printer;
pub mod record;
pub mod scanner;
pub mod session;
pub mod text;
