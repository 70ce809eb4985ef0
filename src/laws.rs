//! Properties of the decision that hold for every rule list and query.
use vstd::prelude::*;
use crate::decision::{decision, eligible, QueryType};
use crate::rules::{entries_view, find_in, regex_captures, Replacement, RuleSet, RuleView};
use crate::template::render;
use crate::text::{lower_char, lower_seq};

verus! {

proof fn lemma_find_in_first(rules: Seq<RuleView>, name: Seq<char>, i: int)
    requires
        0 <= i < rules.len(),
        regex_captures(rules[i].0, name) is Some,
        forall|j: int| 0 <= j < i ==> regex_captures(#[trigger] rules[j].0, name) is None,
    ensures
        find_in(rules, name) == render(rules[i].1, regex_captures(rules[i].0, name)->Some_0),
    decreases i,
{
    if i > 0 {
        let rest = rules.drop_first();
        assert(regex_captures(rules[0].0, name) is None);
        assert forall|j: int| 0 <= j < i - 1 implies regex_captures(#[trigger] rest[j].0, name) is None by {
            assert(rest[j] == rules[j + 1]);
        }
        lemma_find_in_first(rest, name, i - 1);
    }
}

proof fn lemma_find_in_none(rules: Seq<RuleView>, name: Seq<char>)
    requires
        forall|j: int| 0 <= j < rules.len() ==> regex_captures(#[trigger] rules[j].0, name) is None,
    ensures
        find_in(rules, name) is None,
    decreases rules.len(),
{
    if rules.len() > 0 {
        let rest = rules.drop_first();
        assert(regex_captures(rules[0].0, name) is None);
        assert forall|j: int| 0 <= j < rest.len() implies regex_captures(#[trigger] rest[j].0, name) is None by {
            assert(rest[j] == rules[j + 1]);
        }
        lemma_find_in_none(rest, name);
    }
}

/// The first rule, in list order, whose pattern matches the lower-cased name
/// decides the answer to an A, AAAA or ANY query: its template filled from
/// that match, or NXDOMAIN when the template names a group the match lacks.
/// No later rule is consulted.
pub proof fn first_match_decides(rules: Seq<RuleView>, name: Seq<char>, t: QueryType, i: int)
    requires
        eligible(t),
        0 <= i < rules.len(),
        regex_captures(rules[i].0, lower_seq(name)) is Some,
        forall|j: int| 0 <= j < i ==> regex_captures(#[trigger] rules[j].0, lower_seq(name)) is None,
    ensures
        decision(rules, name, t) == render(rules[i].1, regex_captures(rules[i].0, lower_seq(name))->Some_0),
{
    lemma_find_in_first(rules, lower_seq(name), i);
}

/// Two names that differ only in the case of ASCII letters get the same answer.
pub proof fn case_insensitive(rules: Seq<RuleView>, a: Seq<char>, b: Seq<char>, t: QueryType)
    requires
        lower_seq(a) == lower_seq(b),
    ensures
        decision(rules, a, t) == decision(rules, b, t),
{
}

/// A name gets the same answer as its ASCII lower-case form.
pub proof fn lower_case_form_answers_alike(rules: Seq<RuleView>, name: Seq<char>, t: QueryType)
    ensures
        decision(rules, name, t) == decision(rules, lower_seq(name), t),
{
    assert forall|i: int| 0 <= i < name.len() implies #[trigger] lower_char(lower_char(name[i])) == lower_char(name[i]) by {
        let c = name[i];
        if 'A' <= c && c <= 'Z' {
            assert('a' <= lower_char(c) && lower_char(c) <= 'z');
        }
    }
    assert(lower_seq(lower_seq(name)) =~= lower_seq(name));
}

/// A query of any type but A, AAAA and ANY gets NXDOMAIN, whatever the rules.
pub proof fn other_types_not_found(rules: Seq<RuleView>, name: Seq<char>, t: QueryType)
    requires
        !eligible(t),
    ensures
        decision(rules, name, t) is None,
{
}

/// A name that no rule's pattern matches gets NXDOMAIN.
pub proof fn no_match_not_found(rules: Seq<RuleView>, name: Seq<char>, t: QueryType)
    requires
        forall|j: int| 0 <= j < rules.len() ==> regex_captures(#[trigger] rules[j].0, lower_seq(name)) is None,
    ensures
        decision(rules, name, t) is None,
{
    lemma_find_in_none(rules, lower_seq(name));
}

/// Two rule sets compiled from the same configuration answer every query alike.
pub proof fn compile_is_deterministic(entries: Seq<Replacement>, a: RuleSet, b: RuleSet)
    requires
        a@ == entries_view(entries),
        b@ == entries_view(entries),
    ensures
        forall|name: Seq<char>, t: QueryType| #[trigger] decision(a@, name, t) == decision(b@, name, t),
{
}

} // verus!
