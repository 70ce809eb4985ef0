//! The per-query decision: filter by record type, then look the name up.
use vstd::prelude::*;
use crate::rules::{lookup, RuleSet, RuleView};

verus! {

/// The record type that a query asks for. `Other` carries the numeric code of
/// any type but A, AAAA and ANY.
#[derive(Clone, Copy, Debug, PartialEq, Eq, Structural)]
pub enum QueryType {
    A,
    Aaaa,
    Any,
    Other(u16),
}

/// What the server answers: a CNAME to the target, or NXDOMAIN.
#[derive(Clone, Debug, PartialEq, Eq)]
pub enum ResponseDecision {
    Rewrite(String),
    NotFound,
}

/// One question of a request.
#[derive(Clone, Debug)]
pub struct Question {
    pub name: String,
    pub qtype: QueryType,
}

/// Only A, AAAA and ANY queries may be rewritten.
pub open spec fn eligible(t: QueryType) -> bool {
    !(t is Other)
}

/// The target of the rewrite for a query, or `None` for NXDOMAIN.
pub open spec fn decision(rules: Seq<RuleView>, name: Seq<char>, t: QueryType) -> Option<Seq<char>> {
    if eligible(t) {
        lookup(rules, name)
    } else {
        None
    }
}

/// Whether a decision value carries exactly the given outcome.
pub open spec fn decides(r: ResponseDecision, outcome: Option<Seq<char>>) -> bool {
    match r {
        ResponseDecision::Rewrite(s) => outcome == Some(s@),
        ResponseDecision::NotFound => outcome is None,
    }
}

/// Whether a query of type `t` may be rewritten.
pub fn is_eligible(t: QueryType) -> (r: bool)
    ensures
        r == eligible(t),
{
    match t {
        QueryType::A | QueryType::Aaaa | QueryType::Any => true,
        QueryType::Other(_) => false,
    }
}

impl RuleSet {
    /// The answer to one query: NXDOMAIN for a type that cannot be rewritten,
    /// else the rewrite of the first matching rule, else NXDOMAIN.
    pub fn decide(&self, name: &str, qtype: QueryType) -> (r: ResponseDecision)
        requires
            self.wf(),
        ensures
            decides(r, decision(self@, name@, qtype)),
    {
        if !is_eligible(qtype) {
            return ResponseDecision::NotFound;
        }
        match self.find_replacement(name) {
            Some(target) => ResponseDecision::Rewrite(target),
            None => ResponseDecision::NotFound,
        }
    }

    /// The answer to a request: decided by its first question; NXDOMAIN when
    /// it has none.
    pub fn handle_request(&self, questions: &Vec<Question>) -> (r: ResponseDecision)
        requires
            self.wf(),
        ensures
            questions@.len() == 0 ==> r == ResponseDecision::NotFound,
            questions@.len() > 0 ==> decides(
                r,
                decision(self@, questions@[0].name@, questions@[0].qtype),
            ),
    {
        if questions.len() == 0 {
            return ResponseDecision::NotFound;
        }
        let first = &questions[0];
        self.decide(first.name.as_str(), first.qtype)
    }
}

} // verus!
