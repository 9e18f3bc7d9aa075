//! Domain groups: each configured domain becomes an anchored suffix regex,
//! and a group is one compiled regex set.
use crate::config::ConfigError;
use crate::pattern::{collect_entries, line_entries, views};
use regex::RegexSet;
use vstd::prelude::*;
use vstd::string::StringExecFns;

verus! {

/// `s` with every `.` written as `\.`.
pub open spec fn escape_dots(s: Seq<char>) -> Seq<char>
    decreases s.len(),
{
    if s.len() == 0 {
        Seq::empty()
    } else {
        let head = if s[0] == '.' {
            seq!['\\', '.']
        } else {
            seq![s[0]]
        };
        head + escape_dots(s.skip(1))
    }
}

/// The pattern for a domain: optionally any labels ending in a dot, the
/// domain with literal dots, an optional trailing dot, and the end of the
/// name; so the domain matches itself and its subdomains, and a name that
/// merely ends in the same text does not.
pub open spec fn domain_regex(d: Seq<char>) -> Seq<char> {
    seq!['^', '(', '.', '*', '\\', '.', ')', '?'] + escape_dots(d) + seq!['\\', '.', '?', '$']
}

/// Relies on str::replace: every `.` replaced by `\.`, the rest kept.
#[verifier::external_body]
fn escape_dots_of(s: &str) -> (r: String)
    ensures
        r@ == escape_dots(s@),
{
    s.replace(".", "\\.")
}

#[verifier::external_type_specification]
#[verifier::external_body]
pub struct ExRegexSet(RegexSet);

/// The patterns that a regex set was compiled from, in order.
pub uninterp spec fn set_patterns(s: RegexSet) -> Seq<Seq<char>>;

/// Whether the regex `pattern` matches somewhere in `text`.
pub uninterp spec fn regex_matches(pattern: Seq<char>, text: Seq<char>) -> bool;

/// Whether some pattern of `pats` matches `text`.
pub open spec fn any_matches(pats: Seq<Seq<char>>, text: Seq<char>) -> bool {
    exists|i: int| 0 <= i < pats.len() && regex_matches(#[trigger] pats[i], text)
}

/// Whether the regex engine accepts these patterns as one set.
pub uninterp spec fn set_compiles(patterns: Seq<Seq<char>>) -> bool;

/// Relies on regex::RegexSet::new: it fails on a pattern that does not
/// parse or that exceeds the default size limits, which depend on the
/// patterns alone; on success the set holds the patterns in the order given.
#[verifier::external_body]
fn compile_set(patterns: &Vec<String>) -> (r: Option<RegexSet>)
    ensures
        r is Some <==> set_compiles(views(patterns@)),
        r is Some ==> set_patterns(r->0) == views(patterns@),
{
    RegexSet::new(patterns).ok()
}

/// Relies on regex::RegexSet::is_match: true iff some pattern of the set
/// matches the text.
#[verifier::external_body]
fn set_is_match(s: &RegexSet, text: &str) -> (r: bool)
    ensures
        r == (exists|i: int| 0 <= i < set_patterns(*s).len() && regex_matches(#[trigger] set_patterns(*s)[i], text@)),
{
    s.is_match(text)
}

/// A named group of domains, compiled into one regex set.
pub struct Domains {
    pub regex_set: RegexSet,
}

impl View for Domains {
    type V = Seq<Seq<char>>;

    open spec fn view(&self) -> Seq<Seq<char>> {
        set_patterns(self.regex_set)
    }
}

impl Domains {
    /// Whether any domain of the group matches the query name.
    pub fn is_match(&self, name: &str) -> (r: bool)
        ensures
            r == any_matches(self@, name@),
    {
        let r = set_is_match(&self.regex_set, name);
        assert(r == any_matches(self@, name@));
        r
    }
}

/// The regex strings of a list of domains.
pub open spec fn regexes_of(domains: Seq<Seq<char>>) -> Seq<Seq<char>> {
    domains.map_values(|d: Seq<char>| domain_regex(d))
}

/// The configuration of a domain group: the lines of its list files, as
/// read, and its inline list.
pub struct DomainsConf {
    pub file_lines: Vec<String>,
    pub list: Vec<String>,
}

impl DomainsConf {
    /// The regex string for a configured domain.
    pub fn domain_to_regex_string(domain: &str) -> (r: String)
        ensures
            r@ == domain_regex(domain@),
    {
        let mut r = "^(.*\\.)?".to_owned();
        let escaped = escape_dots_of(domain);
        r.append(escaped.as_str());
        r.append("\\.?$");
        proof {
            reveal_strlit("^(.*\\.)?");
            reveal_strlit("\\.?$");
        }
        assert(r@ =~= domain_regex(domain@));
        r
    }

    /// The domains that the group lists, in order.
    pub open spec fn entries(&self) -> Seq<Seq<char>> {
        line_entries(views(self.file_lines@)) + line_entries(views(self.list@))
    }

    /// The regex strings of the group, one per domain, in order.
    pub fn regex_strings(&self) -> (r: Vec<String>)
        ensures
            views(r@) == regexes_of(self.entries()),
    {
        let entries = collect_entries(&self.file_lines, &self.list);
        let mut out: Vec<String> = Vec::new();
        let mut i: usize = 0;
        while i < entries.len()
            invariant
                i <= entries.len(),
                views(entries@) == self.entries(),
                views(out@) == regexes_of(views(entries@.subrange(0, i as int))),
            decreases entries.len() - i,
        {
            let ghost prev = out@;
            out.push(Self::domain_to_regex_string(entries[i].as_str()));
            assert(views(out@) =~= views(prev).push(domain_regex(entries@[i as int]@)));
            assert(views(entries@.subrange(0, i + 1)) =~= views(entries@.subrange(0, i as int)).push(
                entries@[i as int]@,
            ));
            assert(views(out@) =~= regexes_of(views(entries@.subrange(0, i + 1))));
            i = i + 1;
        }
        assert(entries@.subrange(0, i as int) =~= entries@);
        out
    }

    /// Compiles the group; fails only where the regex engine refuses the
    /// patterns.
    pub fn build(&self) -> (r: Result<Domains, ConfigError>)
        ensures
            r is Ok <==> set_compiles(regexes_of(self.entries())),
            r matches Ok(d) ==> d@ == regexes_of(self.entries()),
            r matches Err(e) ==> e == ConfigError::InvalidRegex,
    {
        let strings = self.regex_strings();
        match compile_set(&strings) {
            Some(set) => Ok(Domains { regex_set: set }),
            None => Err(ConfigError::InvalidRegex),
        }
    }
}

} // verus!
