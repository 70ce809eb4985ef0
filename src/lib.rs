//! The decision core of a DNS server that rewrites query names into CNAME
//! targets by an ordered list of regular-expression rules.
//!
//! `rules::RuleSet::compile` turns configuration entries into a rule set;
//! `RuleSet::decide` answers one query with a rewrite target or NXDOMAIN.

pub mod decision;
pub mod laws;
pub mod rules;
pub mod template;
pub mod text;
