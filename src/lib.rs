//! Recursive subdomain discovery: candidate generation, resolution retry
//! policy, wildcard filtering, acceptance and recursion rules, output framing
//! and the quiescence-based termination protocol of the scan pipeline.

pub mod text;
pub mod query;
pub mod dict;
pub mod wildcards;
pub mod write_handler;
pub mod gen_handler;
pub mod check_handler;
pub mod mem_util;
pub mod handler;
pub mod logger;
