use dns_redirect::decision::{QueryType, Question, ResponseDecision};
use dns_redirect::rules::{CompileError, Replacement, RuleSet};
use dns_redirect::template::Template;

fn rule(from: &str, to: &str) -> Replacement {
    Replacement { from: from.to_string(), to: to.to_string() }
}

fn compile(entries: Vec<Replacement>) -> RuleSet {
    RuleSet::compile(&entries).unwrap()
}

fn rewrite(target: &str) -> ResponseDecision {
    ResponseDecision::Rewrite(target.to_string())
}

fn check(rules: &RuleSet, cases: &[(&str, &str)]) {
    for (query, expected) in cases {
        assert_eq!(rules.decide(query, QueryType::Any), rewrite(expected), "query {}", query);
        let fqdn = format!("{}.", query);
        assert_eq!(rules.decide(&fqdn, QueryType::Any), rewrite(expected), "query {}", fqdn);
    }
}

#[test]
fn test_single_mapping_returns_expected_cname() {
    let rules = compile(vec![rule(r"^.*$", "bob.lan.")]);
    check(&rules, &[("bob.mnh", "bob.lan."), ("alice.mnh", "bob.lan."), ("charlie.pod", "bob.lan.")]);
}

#[test]
fn test_mapping_returns_expected_cnames() {
    let rules = compile(vec![rule(r"^(.*)\.mnh.?$", "{1}.lan.")]);
    check(
        &rules,
        &[("bob.mnh", "bob.lan."), ("alice.mnh", "alice.lan."), ("big.site.mnh", "big.site.lan.")],
    );
}

#[test]
fn test_multiple_replacements() {
    let rules = compile(vec![
        rule(r"^(.*)\.mnh.?$", "{1}.lan."),
        rule(r"^(.*)\.(.*)\.pod.?$", "{2}.{1}.pod."),
    ]);
    check(
        &rules,
        &[
            ("bob.mnh", "bob.lan."),
            ("alice.chad.pod", "chad.alice.pod."),
            ("big.site.mnh", "big.site.lan."),
            ("x.y.z.pod", "z.x.y.pod."),
        ],
    );
}

#[test]
fn test_no_match_returns_nxdomain() {
    let rules = compile(vec![rule(r"^(.*)\.mnh.?$", "dont.care.")]);
    assert_eq!(rules.decide("barry.net", QueryType::Any), ResponseDecision::NotFound);
    assert_eq!(rules.decide("barry.net.", QueryType::A), ResponseDecision::NotFound);
}

#[test]
fn test_wrong_query_type_returns_nxdomain() {
    let rules = compile(vec![rule(r"^(.*)\.net.?$", "dont.care.")]);
    // CSYNC is record type 62.
    assert_eq!(rules.decide("barry.net", QueryType::Other(62)), ResponseDecision::NotFound);
    assert_eq!(rules.decide("barry.net", QueryType::A), rewrite("dont.care."));
}

#[test]
fn eligible_types_are_rewritten() {
    let rules = compile(vec![rule(r"^(.*)\.mnh.?$", "{1}.lan.")]);
    assert_eq!(rules.decide("bob.mnh", QueryType::A), rewrite("bob.lan."));
    assert_eq!(rules.decide("bob.mnh", QueryType::Aaaa), rewrite("bob.lan."));
    assert_eq!(rules.decide("bob.mnh", QueryType::Any), rewrite("bob.lan."));
    assert_eq!(rules.decide("bob.mnh", QueryType::Other(5)), ResponseDecision::NotFound);
    assert!(dns_redirect::decision::is_eligible(QueryType::Aaaa));
    assert!(!dns_redirect::decision::is_eligible(QueryType::Other(1)));
}

#[test]
fn first_matching_rule_wins() {
    let rules = compile(vec![
        rule(r"^(.*)\.mnh.?$", "first-{1}."),
        rule(r"^.*$", "second."),
    ]);
    assert_eq!(rules.decide("bob.mnh", QueryType::A), rewrite("first-bob."));
    assert_eq!(rules.decide("bob.pod", QueryType::A), rewrite("second."));
    let swapped = compile(vec![
        rule(r"^.*$", "second."),
        rule(r"^(.*)\.mnh.?$", "first-{1}."),
    ]);
    assert_eq!(swapped.decide("bob.mnh", QueryType::A), rewrite("second."));
}

#[test]
fn names_match_without_regard_to_case() {
    let rules = compile(vec![rule(r"^(.*)\.mnh.?$", "{1}.lan.")]);
    assert_eq!(rules.decide("BoB.MNH", QueryType::A), rewrite("bob.lan."));
    assert_eq!(rules.decide("ALICE.mnh.", QueryType::A), rewrite("alice.lan."));
    let upper = compile(vec![rule(r"^BOB$", "x.")]);
    assert_eq!(upper.decide("BOB", QueryType::A), ResponseDecision::NotFound);
}

#[test]
fn missing_group_gives_nxdomain_without_falling_through() {
    let rules = compile(vec![
        rule(r"^(.*)\.mnh.?$", "{2}.lan."),
        rule(r"^.*$", "fallback."),
    ]);
    assert_eq!(rules.decide("bob.mnh", QueryType::A), ResponseDecision::NotFound);
    assert_eq!(rules.decide("bob.pod", QueryType::A), rewrite("fallback."));
    assert_eq!(rules.find_replacement("bob.mnh"), None);
}

#[test]
fn group_that_took_no_part_is_empty() {
    let rules = compile(vec![rule(r"^(a)?(b)$", "[{1}][{2}]")]);
    assert_eq!(rules.decide("b", QueryType::A), rewrite("[][b]"));
    assert_eq!(rules.decide("ab", QueryType::A), rewrite("[a][b]"));
    assert_eq!(rules.decide("ab", QueryType::A), rewrite("[a][b]"));
}

#[test]
fn group_zero_is_the_whole_match() {
    let rules = compile(vec![rule(r"mnh", "<{0}>")]);
    assert_eq!(rules.decide("bob.mnh.lan", QueryType::A), rewrite("<mnh>"));
}

#[test]
fn empty_rule_set_finds_nothing() {
    let rules = compile(vec![]);
    assert_eq!(rules.decide("bob.mnh", QueryType::A), ResponseDecision::NotFound);
}

#[test]
fn invalid_pattern_refuses_whole_configuration() {
    let entries = vec![rule(r"^ok$", "a."), rule(r"foo(bar", "b."), rule(r"[", "c.")];
    let err = RuleSet::compile(&entries).unwrap_err();
    assert_eq!(err, CompileError { index: 1, pattern: "foo(bar".to_string() });
}

#[test]
fn compiling_twice_answers_alike() {
    let entries = vec![
        rule(r"^(.*)\.mnh.?$", "{1}.lan."),
        rule(r"^(.*)\.(.*)\.pod.?$", "{2}.{1}.pod."),
    ];
    let a = RuleSet::compile(&entries).unwrap();
    let b = RuleSet::compile(&entries).unwrap();
    for name in ["bob.mnh", "x.y.z.pod", "barry.net", "ALICE.CHAD.POD"] {
        for t in [QueryType::A, QueryType::Other(62)] {
            assert_eq!(a.decide(name, t), b.decide(name, t));
        }
    }
}

#[test]
fn request_uses_first_question() {
    let rules = compile(vec![rule(r"^(.*)\.mnh.?$", "{1}.lan.")]);
    assert_eq!(rules.handle_request(&vec![]), ResponseDecision::NotFound);
    let qs = vec![
        Question { name: "bob.mnh.".to_string(), qtype: QueryType::A },
        Question { name: "barry.net.".to_string(), qtype: QueryType::A },
    ];
    assert_eq!(rules.handle_request(&qs), rewrite("bob.lan."));
    let qs = vec![
        Question { name: "bob.mnh.".to_string(), qtype: QueryType::Other(16) },
        Question { name: "bob.mnh.".to_string(), qtype: QueryType::A },
    ];
    assert_eq!(rules.handle_request(&qs), ResponseDecision::NotFound);
}

#[test]
fn template_substitution() {
    let caps = vec![Some("bob.mnh".to_string()), Some("bob".to_string()), None];
    let t = Template::parse("{1}.lan.");
    assert_eq!(t.substitute(&caps), Some("bob.lan.".to_string()));
    let t = Template::parse("{2}x{0}");
    assert_eq!(t.substitute(&caps), Some("xbob.mnh".to_string()));
    let t = Template::parse("{3}");
    assert_eq!(t.substitute(&caps), None);
    let t = Template::parse("");
    assert_eq!(t.substitute(&caps), Some(String::new()));
    let t = Template::parse("{01}");
    assert_eq!(t.substitute(&caps), Some("bob".to_string()));
}

#[test]
fn braces_that_are_no_placeholder_stay() {
    let caps = vec![Some("w".to_string()), Some("g".to_string())];
    for text in ["{", "}", "{}", "{x}", "{1", "a{b}c", "{{1}}"] {
        let expected = if text == "{{1}}" { "{g}".to_string() } else { text.to_string() };
        assert_eq!(Template::parse(text).substitute(&caps), Some(expected), "template {}", text);
    }
}

#[test]
fn huge_group_index_is_missing() {
    let caps = vec![Some("w".to_string())];
    let t = Template::parse("{99999999999999999999999999}");
    assert_eq!(t.substitute(&caps), None);
    let t = Template::parse("{18446744073709551615}");
    assert_eq!(t.substitute(&caps), None);
}

#[test]
fn lower_case_conversion() {
    assert_eq!(dns_redirect::text::to_lower_ascii("AbC.Z-9é"), "abc.z-9é");
    assert_eq!(dns_redirect::text::chars_of("aé"), vec!['a', 'é']);
}
