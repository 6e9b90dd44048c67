//! Study-plan search: a catalog of modules and semesters is compiled into
//! constraints for an outside satisfiability oracle, the oracle's models are
//! checked and turned into plans, and plans that differ only in placement are
//! merged.
pub mod model;
pub mod constraint;
pub mod regulations;
pub mod compile;
pub mod enumerate;
pub mod order;
pub mod dedup;
pub mod catalog;
