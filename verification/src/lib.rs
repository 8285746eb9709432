//! Core engine of a network service scanner: a shared target pool, a pure
//! rule-matching condition engine, scan and monitor coordination logic, and a
//! streaming JSON result sink, all with verified contracts.

pub mod adapters;
pub mod condition;
pub mod format;
pub mod mode;
pub mod pool;
pub mod text;
