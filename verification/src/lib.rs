//! CPE matching engine: turns installed-package records into normalized
//! search patterns and evaluates them against a reference feed of CPE
//! (Common Platform Enumeration) identifier strings.

pub mod adapter;
pub mod command;
pub mod cve_summary;
pub mod json;
pub mod package;
pub mod query_builder;
pub mod re;
pub mod searchers;
pub mod service;
pub mod strutil;
pub mod tracker_summary;
pub mod utils;
pub mod validators;
