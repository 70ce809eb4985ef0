//! Rules and ordered rule sets: a pattern, a template, and first-match lookup.
use vstd::prelude::*;
use crate::template::{captures_view, render, CaptureMap, Template};
use crate::text::{lower_seq, to_lower_ascii};

verus! {

#[verifier::external_type_specification]
#[verifier::external_body]
pub struct ExRegex(regex::Regex);

#[verifier::external_type_specification]
#[verifier::external_body]
pub struct ExRegexError(regex::Error);

/// Whether the regex engine accepts a pattern.
pub uninterp spec fn pattern_accepted(pattern: Seq<char>) -> bool;

/// The leftmost-first match of `pattern` in `text`, as one entry per capture
/// group (group 0 being the whole match), or `None` where there is no match.
pub uninterp spec fn regex_captures(pattern: Seq<char>, text: Seq<char>) -> Option<CaptureMap>;

/// Relies on `regex::Regex::new`: it compiles the pattern or reports that it
/// cannot, and which of the two depends on the pattern alone.
#[verifier::external_body]
fn compile_pattern(pattern: &str) -> (r: Result<regex::Regex, regex::Error>)
    ensures
        r is Ok <==> pattern_accepted(pattern@),
{
    regex::Regex::new(pattern)
}

/// One configuration entry: a pattern to match and a template to fill.
#[derive(Clone, Debug)]
pub struct Replacement {
    pub from: String,
    pub to: String,
}

/// A pattern that failed to compile, with its place in the configuration.
#[derive(Clone, Debug, PartialEq, Eq)]
pub struct CompileError {
    pub index: usize,
    pub pattern: String,
}

/// A compiled rule. `regex` is always the compilation of `source`: only
/// `RuleSet::compile` builds a rule.
#[derive(Debug)]
pub struct Rule {
    source: String,
    regex: regex::Regex,
    template: Template,
}

impl Rule {
    /// Relies on `regex::Regex::captures` and `regex::Captures::iter`: the
    /// leftmost-first match of the rule's compiled pattern in `text`, each group
    /// given as the text it matched, or `None` where it took no part.
    #[verifier::external_body]
    fn captures(&self, text: &str) -> (r: Option<Vec<Option<String>>>)
        ensures
            r matches Some(v) ==> regex_captures(self.source@, text@) == Some(captures_view(v@)),
            r is None ==> regex_captures(self.source@, text@) is None,
    {
        self.regex.captures(text).map(|c| c.iter().map(|m| m.map(|m| m.as_str().to_string())).collect())
    }
}

/// A rule as a value: its pattern text and its template text.
pub type RuleView = (Seq<char>, Seq<char>);

/// The configuration entries as pairs of pattern and template.
pub open spec fn entries_view(entries: Seq<Replacement>) -> Seq<RuleView> {
    entries.map_values(|e: Replacement| (e.from@, e.to@))
}

/// The first rule whose pattern matches `name` decides: its filled template,
/// or `None` when it names a group that the match lacks. Later rules are not
/// tried once a pattern has matched.
pub open spec fn find_in(rules: Seq<RuleView>, name: Seq<char>) -> Option<Seq<char>>
    decreases rules.len(),
{
    if rules.len() == 0 {
        None
    } else {
        match regex_captures(rules[0].0, name) {
            Some(caps) => render(rules[0].1, caps),
            None => find_in(rules.drop_first(), name),
        }
    }
}

/// The rewrite of a query name: names are matched in ASCII lower case.
pub open spec fn lookup(rules: Seq<RuleView>, name: Seq<char>) -> Option<Seq<char>> {
    find_in(rules, lower_seq(name))
}

/// An ordered, immutable list of rules; the first that matches wins.
#[derive(Debug)]
pub struct RuleSet {
    rules: Vec<Rule>,
}

impl View for RuleSet {
    type V = Seq<RuleView>;

    closed spec fn view(&self) -> Seq<RuleView> {
        self.rules@.map_values(|r: Rule| (r.source@, r.template@))
    }
}

impl RuleSet {
    /// Every rule's template holds the segments of its text.
    pub closed spec fn wf(&self) -> bool {
        forall|i: int| 0 <= i < self.rules@.len() ==> #[trigger] self.rules@[i].template.wf()
    }

    /// Compiles every entry, in order. The whole configuration is refused at
    /// the first pattern that does not compile.
    pub fn compile(entries: &Vec<Replacement>) -> (r: Result<RuleSet, CompileError>)
        ensures
            r is Ok <==> forall|i: int| 0 <= i < entries@.len() ==> pattern_accepted(#[trigger] entries@[i].from@),
            r matches Ok(rs) ==> rs.wf() && rs@ == entries_view(entries@),
            r matches Err(e) ==> {
                &&& e.index < entries@.len()
                &&& e.pattern@ == entries@[e.index as int].from@
                &&& !pattern_accepted(e.pattern@)
                &&& forall|i: int| 0 <= i < e.index ==> pattern_accepted(#[trigger] entries@[i].from@)
            },
    {
        let mut rules: Vec<Rule> = Vec::new();
        let mut i: usize = 0;
        while i < entries.len()
            invariant
                i <= entries@.len(),
                rules@.len() == i,
                forall|k: int| 0 <= k < i ==> pattern_accepted(#[trigger] entries@[k].from@),
                forall|k: int| 0 <= k < i ==> (#[trigger] rules@[k]).template.wf(),
                forall|k: int| 0 <= k < i ==> (#[trigger] rules@[k]).source@ == entries@[k].from@
                    && rules@[k].template@ == entries@[k].to@,
            decreases entries@.len() - i,
        {
            let entry = &entries[i];
            match compile_pattern(entry.from.as_str()) {
                Ok(regex) => {
                    let template = Template::parse(entry.to.as_str());
                    rules.push(Rule { source: entry.from.clone(), regex, template });
                },
                Err(_) => {
                    return Err(CompileError { index: i, pattern: entry.from.clone() });
                },
            }
            i = i + 1;
        }
        let rs = RuleSet { rules };
        assert(rs@ =~= entries_view(entries@));
        Ok(rs)
    }

    /// The rewrite of `name` by the first rule that matches it, in ASCII lower
    /// case; `None` when no rule matches, or when the first that matches names
    /// a capture group that its match does not have.
    pub fn find_replacement(&self, name: &str) -> (r: Option<String>)
        requires
            self.wf(),
        ensures
            r matches Some(s) ==> lookup(self@, name@) == Some(s@),
            r is None ==> lookup(self@, name@) is None,
    {
        let lowered = to_lower_ascii(name);
        let ghost lname = lower_seq(name@);
        let mut i: usize = 0;
        assert(self@.subrange(0, self@.len() as int) =~= self@);
        while i < self.rules.len()
            invariant
                self.wf(),
                lowered@ == lname,
                lname == lower_seq(name@),
                i <= self@.len(),
                find_in(self@, lname) == find_in(self@.subrange(i as int, self@.len() as int), lname),
            decreases self@.len() - i,
        {
            let rule = &self.rules[i];
            let ghost rest = self@.subrange(i as int, self@.len() as int);
            assert(rest.drop_first() =~= self@.subrange(i + 1, self@.len() as int));
            assert(rest.len() > 0);
            assert(rest[0] == (rule.source@, rule.template@));
            match rule.captures(lowered.as_str()) {
                Some(caps) => {
                    assert(self.rules@[i as int].template.wf());
                    assert(find_in(rest, lname) == render(rule.template@, captures_view(caps@)));
                    let r = rule.template.substitute(&caps);
                    return r;
                },
                None => {},
            }
            i = i + 1;
        }
        None
    }
}

} // verus!
