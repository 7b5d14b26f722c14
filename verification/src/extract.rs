//! Ticket extraction: ordered regex rules, compiled at load time (rules
//! whose pattern does not compile are dropped, not fatal), evaluated in
//! configured order against a chosen field of an activity record. The first
//! rule that matches with a non-empty first capture group wins.

use vstd::prelude::*;
use crate::config::ExtractionRule;
use crate::record::{ActivityInfo, ActivityInfoV};

verus! {

#[verifier::external_type_specification]
#[verifier::external_body]
pub struct ExRegex(regex::Regex);

/// The pattern a compiled regex was built from (what `Regex::as_str`
/// returns): a function of the regex value alone.
pub uninterp spec fn regex_pattern(re: regex::Regex) -> Seq<char>;

/// Whether `Regex::new` accepts a pattern.
pub uninterp spec fn regex_compiles(pattern: Seq<char>) -> bool;

/// What `Regex::captures` followed by `Captures::get(1)` yields: the first
/// capture group of the leftmost match of the pattern in the text, a
/// function of the pattern and the text alone; `None` when the pattern does
/// not match or the group took no part in the match.
pub uninterp spec fn capture_group1(pattern: Seq<char>, text: Seq<char>) -> Option<Seq<char>>;

/// Relies on `regex::Regex::new` and `Regex::as_str`: compilation succeeds
/// exactly when the pattern is a valid expression, and the compiled value
/// keeps the pattern text it was built from.
#[verifier::external_body]
fn regex_new(pattern: &str) -> (r: Option<regex::Regex>)
    ensures
        r is Some <==> regex_compiles(pattern@),
        r matches Some(re) ==> regex_pattern(re) == pattern@,
{
    regex::Regex::new(pattern).ok()
}

/// Relies on `regex::Regex::captures`, `Captures::get` and
/// `Match::as_str`: the first capture group of the leftmost match, as
/// `capture_group1` names it.
#[verifier::external_body]
fn regex_capture_group1(re: &regex::Regex, text: &str) -> (r: Option<String>)
    ensures
        r matches Some(s) ==> capture_group1(regex_pattern(*re), text@) == Some(s@),
        r is None ==> capture_group1(regex_pattern(*re), text@) is None,
{
    re.captures(text).and_then(|c| c.get(1)).map(|m| m.as_str().to_string())
}

/// Which record field a rule reads.
#[derive(Clone, Copy, Debug, PartialEq, Eq, Structural)]
pub enum SourceField {
    WindowTitle,
    ProcessName,
    Domain,
}

/// The field selector a configured source string names; anything
/// unrecognized falls back to the window title.
pub open spec fn spec_source_field(source: Seq<char>) -> SourceField {
    if source == "process_name"@ {
        SourceField::ProcessName
    } else if source == "domain"@ {
        SourceField::Domain
    } else {
        SourceField::WindowTitle
    }
}

/// Resolves a configured source string to the field it names.
pub fn source_field_of(source: &String) -> (r: SourceField)
    ensures
        r == spec_source_field(source@),
{
    let pn = String::from_str("process_name");
    let dm = String::from_str("domain");
    if source.eq(&pn) {
        SourceField::ProcessName
    } else if source.eq(&dm) {
        SourceField::Domain
    } else {
        SourceField::WindowTitle
    }
}

/// The text of the selected field: the window title, the process name, or
/// the domain (an absent domain reads as empty text).
pub open spec fn spec_source_text(a: ActivityInfoV, f: SourceField) -> Seq<char> {
    match f {
        SourceField::WindowTitle => a.window_title,
        SourceField::ProcessName => a.process_name,
        SourceField::Domain => match a.domain {
            Some(d) => d,
            None => Seq::empty(),
        },
    }
}

/// Reads the selected field of a record.
pub fn source_text<'a>(a: &'a ActivityInfo, f: SourceField) -> (r: &'a str)
    ensures
        r@ == spec_source_text(a@, f),
{
    match f {
        SourceField::WindowTitle => a.window_title.as_str(),
        SourceField::ProcessName => a.process_name.as_str(),
        SourceField::Domain => match &a.domain {
            Some(d) => d.as_str(),
            None => {
                let e = "";
                proof {
                    reveal_strlit("");
                    assert(e@ =~= Seq::<char>::empty());
                }
                e
            },
        },
    }
}

/// One compiled extraction rule: the kept pattern, the resolved field
/// selector, and the compiled regex.
pub struct CompiledRule {
    pattern: String,
    source: SourceField,
    regex: regex::Regex,
}

impl CompiledRule {
    /// The pattern this rule was compiled from.
    pub closed spec fn pattern_view(self) -> Seq<char> {
        self.pattern@
    }

    /// The field this rule reads.
    pub closed spec fn source_view(self) -> SourceField {
        self.source
    }

    /// The held regex is the compiled form of the held pattern.
    pub closed spec fn wf(self) -> bool {
        regex_pattern(self.regex) == self.pattern@ && regex_compiles(self.pattern@)
    }

    /// The rule as its (pattern, field) pair.
    pub open spec fn rule_view(self) -> (Seq<char>, SourceField) {
        (self.pattern_view(), self.source_view())
    }
}

/// The rules kept at load time: those whose pattern compiles, in configured
/// order, with their field selectors resolved.
pub open spec fn kept_rules(rules: Seq<ExtractionRule>) -> Seq<(Seq<char>, SourceField)>
    decreases rules.len(),
{
    if rules.len() == 0 {
        Seq::empty()
    } else {
        let rest = kept_rules(rules.drop_last());
        let r = rules.last();
        if regex_compiles(r.pattern@) {
            rest.push((r.pattern@, spec_source_field(r.source@)))
        } else {
            rest
        }
    }
}

/// The (pattern, field) pairs of a sequence of compiled rules.
pub open spec fn rule_views(rules: Seq<CompiledRule>) -> Seq<(Seq<char>, SourceField)> {
    rules.map_values(|c: CompiledRule| c.rule_view())
}

/// Compiles a configured rule list, keeping exactly the rules whose
/// pattern compiles, in order; invalid patterns are dropped silently.
pub fn compile_rules(rules: &Vec<ExtractionRule>) -> (r: Vec<CompiledRule>)
    ensures
        rule_views(r@) == kept_rules(rules@),
        forall|i: int| 0 <= i < r@.len() ==> (#[trigger] r@[i]).wf(),
{
    let mut out: Vec<CompiledRule> = Vec::new();
    let n = rules.len();
    let mut i: usize = 0;
    while i < n
        invariant
            n == rules@.len(),
            0 <= i <= n,
            rule_views(out@) == kept_rules(rules@.subrange(0, i as int)),
            forall|t: int| 0 <= t < out@.len() ==> (#[trigger] out@[t]).wf(),
        decreases n - i,
    {
        let ghost pre = rules@.subrange(0, i as int);
        let ghost cur = rules@.subrange(0, i as int + 1);
        proof {
            assert(cur.drop_last() =~= pre);
            assert(cur.last() == rules@[i as int]);
        }
        let rule = &rules[i];
        match regex_new(rule.pattern.as_str()) {
            Some(re) => {
                let field = source_field_of(&rule.source);
                out.push(CompiledRule { pattern: rule.pattern.clone(), source: field, regex: re });
                proof {
                    assert(rule_views(out@) =~= kept_rules(cur));
                }
            },
            None => {
                proof {
                    assert(rule_views(out@) =~= kept_rules(cur));
                }
            },
        }
        i = i + 1;
    }
    proof {
        assert(rules@.subrange(0, n as int) =~= rules@);
    }
    out
}

/// The extraction rule of the design: the first rule, in order, whose
/// pattern yields a non-empty first capture group on its selected field
/// wins; a match with an empty group does not, and with no winning rule the
/// result is no ticket.
pub open spec fn spec_extract(rules: Seq<(Seq<char>, SourceField)>, a: ActivityInfoV) -> Option<
    Seq<char>,
>
    decreases rules.len(),
{
    if rules.len() == 0 {
        None
    } else {
        match capture_group1(rules.first().0, spec_source_text(a, rules.first().1)) {
            Some(s) => if s.len() > 0 {
                Some(s)
            } else {
                spec_extract(rules.drop_first(), a)
            },
            None => spec_extract(rules.drop_first(), a),
        }
    }
}

/// Runs the compiled rules against a record, in order, short-circuiting on
/// the first non-empty capture; exactly `spec_extract`.
pub fn extract_from_rules(rules: &Vec<CompiledRule>, a: &ActivityInfo) -> (r: Option<String>)
    requires
        forall|i: int| 0 <= i < rules@.len() ==> (#[trigger] rules@[i]).wf(),
    ensures
        r matches Some(s) ==> spec_extract(rule_views(rules@), a@) == Some(s@),
        r is None ==> spec_extract(rule_views(rules@), a@) is None,
{
    let ghost rv = rule_views(rules@);
    let n = rules.len();
    let mut i: usize = 0;
    proof {
        assert(rv.skip(0) =~= rv);
    }
    while i < n
        invariant
            n == rules@.len(),
            rv == rule_views(rules@),
            0 <= i <= n,
            forall|t: int| 0 <= t < rules@.len() ==> (#[trigger] rules@[t]).wf(),
            spec_extract(rv, a@) == spec_extract(rv.skip(i as int), a@),
        decreases n - i,
    {
        proof {
            assert(rv.skip(i as int).first() == rv[i as int]);
            assert(rv.skip(i as int).drop_first() =~= rv.skip(i as int + 1));
        }
        let rule = &rules[i];
        let text = source_text(a, rule.source);
        match regex_capture_group1(&rule.regex, text) {
            Some(s) => {
                if !s.as_str().is_empty() {
                    return Some(s);
                }
            },
            None => {},
        }
        i = i + 1;
    }
    proof {
        assert(rv.skip(n as int) =~= Seq::<(Seq<char>, SourceField)>::empty());
    }
    None
}

} // verus!
