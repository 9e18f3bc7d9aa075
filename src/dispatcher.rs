//! The rule engine and the race over upstreams: which upstreams a query
//! goes to, whether a response is accepted, and when the race ends.
use crate::config::{Config, RequestRule, ResponseRule, RuleAction};
use crate::domain::{any_matches, Domains};
use crate::ip::{view_holds, IpAddress, IpRange, RangeView};
use crate::pattern::{bangs, group_of, is_negated, lemma_negation_parity, split_negations, views};
use vstd::prelude::*;

verus! {

/// The first index of `names` whose view is `n`.
pub open spec fn first_index_of(names: Seq<Seq<char>>, n: Seq<char>) -> Option<int>
    decreases names.len(),
{
    if names.len() == 0 {
        None
    } else {
        match first_index_of(names.drop_last(), n) {
            Some(i) => Some(i),
            None => if names.last() == n {
                Some(names.len() - 1)
            } else {
                None
            },
        }
    }
}

/// The names of a list of named groups.
pub open spec fn group_names<T>(groups: Seq<(String, T)>) -> Seq<Seq<char>> {
    groups.map_values(|g: (String, T)| g.0@)
}

/// Whether any address answer lies in the range.
pub open spec fn answers_hit(v: RangeView, answers: Seq<Option<IpAddress>>) -> bool {
    exists|i: int| 0 <= i < answers.len() && (#[trigger] answers[i]) is Some && view_holds(v, answers[i]->0)
}

/// Whether a domain pattern holds of a query name: its group exists, and
/// matches the name, inverted when the pattern is negated.
pub open spec fn domain_pattern_holds(groups: Seq<(String, Domains)>, pattern: Seq<char>, qname: Seq<char>) -> bool {
    match first_index_of(group_names(groups), group_of(pattern)) {
        Some(i) => any_matches(groups[i].1@, qname) != is_negated(pattern),
        None => false,
    }
}

/// Whether a range pattern holds of a response's answers: its group exists,
/// and holds one of the answer addresses, inverted when the pattern is negated.
pub open spec fn range_pattern_holds(groups: Seq<(String, IpRange)>, pattern: Seq<char>, answers: Seq<Option<IpAddress>>) -> bool {
    match first_index_of(group_names(groups), group_of(pattern)) {
        Some(i) => answers_hit(groups[i].1@, answers) != is_negated(pattern),
        None => false,
    }
}

/// Whether some pattern of the list holds.
pub open spec fn any_domain_pattern(groups: Seq<(String, Domains)>, patterns: Seq<Seq<char>>, qname: Seq<char>) -> bool {
    exists|j: int| 0 <= j < patterns.len() && domain_pattern_holds(groups, #[trigger] patterns[j], qname)
}

/// Whether some pattern of the list holds.
pub open spec fn any_range_pattern(groups: Seq<(String, IpRange)>, patterns: Seq<Seq<char>>, answers: Seq<Option<IpAddress>>) -> bool {
    exists|j: int| 0 <= j < patterns.len() && range_pattern_holds(groups, #[trigger] patterns[j], answers)
}

/// The rule engine's data: upstream names, groups and rules.
pub struct Dispatcher {
    /// The upstreams marked default.
    pub defaults: Vec<String>,
    /// The names of all configured upstreams.
    pub upstreams: Vec<String>,
    pub domains: Vec<(String, Domains)>,
    pub ranges: Vec<(String, IpRange)>,
    pub request_rules: Vec<RequestRule>,
    pub response_rules: Vec<ResponseRule>,
}

impl Dispatcher {
    /// Whether a request rule matches a query of name `qname` and type `qtype`.
    pub open spec fn request_matches(&self, rule: RequestRule, qname: Seq<char>, qtype: u16) -> bool {
        &&& match rule.domains {
            Some(d) => any_domain_pattern(self.domains@, views(d@), qname),
            None => true,
        }
        &&& match rule.types {
            Some(t) => t@.contains(qtype),
            None => true,
        }
    }

    /// The first request rule at or after `i` that matches the query.
    pub open spec fn first_request_match_from(&self, i: int, qname: Seq<char>, qtype: u16) -> Option<int>
        decreases self.request_rules@.len() - i,
    {
        if i < 0 || i >= self.request_rules@.len() {
            None
        } else if self.request_matches(self.request_rules@[i], qname, qtype) {
            Some(i)
        } else {
            self.first_request_match_from(i + 1, qname, qtype)
        }
    }

    /// The first request rule that matches the query.
    pub open spec fn first_request_match(&self, qname: Seq<char>, qtype: u16) -> Option<int> {
        self.first_request_match_from(0, qname, qtype)
    }

    /// The upstreams that routing picks: those of the first matching
    /// request rule, else the defaults.
    pub open spec fn routed(&self, qname: Seq<char>, qtype: u16) -> Seq<Seq<char>> {
        match self.first_request_match(qname, qtype) {
            Some(i) => views(self.request_rules@[i].upstreams@),
            None => views(self.defaults@),
        }
    }

    /// Whether a response rule matches a response from `upstream` to a
    /// query of name `qname`.
    pub open spec fn response_matches(&self, rule: ResponseRule, qname: Seq<char>, upstream: Seq<char>, answers: Seq<Option<IpAddress>>) -> bool {
        &&& match rule.upstreams {
            Some(u) => views(u@).contains(upstream),
            None => true,
        }
        &&& match rule.ranges {
            Some(r) => any_range_pattern(self.ranges@, views(r@), answers),
            None => true,
        }
        &&& match rule.domains {
            Some(d) => any_domain_pattern(self.domains@, views(d@), qname),
            None => true,
        }
    }

    /// The action of the first response rule at or after `i` that matches;
    /// accept when none does.
    pub open spec fn response_action_from(&self, i: int, qname: Seq<char>, upstream: Seq<char>, answers: Seq<Option<IpAddress>>) -> RuleAction
        decreases self.response_rules@.len() - i,
    {
        if i < 0 || i >= self.response_rules@.len() {
            RuleAction::Accept
        } else if self.response_matches(self.response_rules@[i], qname, upstream, answers) {
            self.response_rules@[i].action
        } else {
            self.response_action_from(i + 1, qname, upstream, answers)
        }
    }

    /// The decision on a response: drop an empty one, else the first
    /// matching rule's action, else accept.
    pub open spec fn decision(&self, qname: Seq<char>, upstream: Seq<char>, answers: Seq<Option<IpAddress>>) -> RuleAction {
        if answers.len() == 0 {
            RuleAction::Drop
        } else {
            self.response_action_from(0, qname, upstream, answers)
        }
    }

}

/// Looks up a group by name: the first with that name.
pub fn find_group<T>(groups: &Vec<(String, T)>, name: &String) -> (r: Option<usize>)
    ensures
        r matches Some(i) ==> first_index_of(group_names(groups@), name@) == Some(i as int),
        r is None ==> first_index_of(group_names(groups@), name@) is None,
        r matches Some(i) ==> i < groups@.len(),
{
    let mut i: usize = 0;
    while i < groups.len()
        invariant
            i <= groups@.len(),
            first_index_of(group_names(groups@.subrange(0, i as int)), name@) is None,
        decreases groups@.len() - i,
    {
        let ghost sub = group_names(groups@.subrange(0, i + 1));
        assert(sub.drop_last() =~= group_names(groups@.subrange(0, i as int)));
        assert(sub.last() == groups@[i as int].0@);
        if groups[i].0 == *name {
            proof {
                assert(sub.len() == i + 1);
                assert(first_index_of(sub, name@) == Some(i as int));
                assert(group_names(groups@).subrange(0, i + 1) =~= sub);
                lemma_first_index_prefix(group_names(groups@), (i + 1) as int, name@);
            }
            return Some(i);
        }
        i = i + 1;
    }
    assert(groups@.subrange(0, i as int) =~= groups@);
    None
}

/// Whether no two groups of the list share a name.
pub open spec fn distinct_names<T>(groups: Seq<(String, T)>) -> bool {
    forall|a: int, b: int| 0 <= a < b < groups.len() ==> (#[trigger] groups[a]).0@ != (#[trigger] groups[b]).0@
}

/// Whether no two groups of the list share a name.
pub fn names_distinct<T>(groups: &Vec<(String, T)>) -> (r: bool)
    ensures
        r == distinct_names(groups@),
{
    let mut j: usize = 0;
    while j < groups.len()
        invariant
            j <= groups@.len(),
            forall|a: int, b: int| 0 <= a < b < j ==> (#[trigger] groups@[a]).0@ != (#[trigger] groups@[b]).0@,
        decreases groups@.len() - j,
    {
        let mut i: usize = 0;
        while i < j
            invariant
                i <= j < groups@.len(),
                forall|a: int, b: int| 0 <= a < b < j ==> (#[trigger] groups@[a]).0@ != (#[trigger] groups@[b]).0@,
                forall|a: int| 0 <= a < i ==> (#[trigger] groups@[a]).0@ != groups@[j as int].0@,
            decreases j - i,
        {
            if groups[i].0 == groups[j].0 {
                assert(!distinct_names(groups@)) by {
                    assert(groups@[i as int].0@ == groups@[j as int].0@);
                }
                return false;
            }
            i = i + 1;
        }
        j = j + 1;
    }
    true
}

/// Whether some name of the list names one of the groups.
pub open spec fn names_some_group<T>(names: Seq<String>, groups: Seq<(String, T)>) -> bool {
    exists|j: int| 0 <= j < names.len() && (#[trigger] first_index_of(group_names(groups), names[j]@)) is Some
}

/// Whether some name of the list names one of the groups.
pub fn any_name_known<T>(names: &Vec<String>, groups: &Vec<(String, T)>) -> (r: bool)
    ensures
        r == names_some_group(names@, groups@),
{
    let mut j: usize = 0;
    while j < names.len()
        invariant
            j <= names@.len(),
            forall|k: int| 0 <= k < j ==> (#[trigger] first_index_of(group_names(groups@), names@[k]@)) is None,
        decreases names@.len() - j,
    {
        if find_group(groups, &names[j]).is_some() {
            return true;
        }
        j = j + 1;
    }
    false
}

/// Whether every pattern of the list names one of the groups.
pub open spec fn patterns_known(names: Seq<Seq<char>>, patterns: Option<Vec<String>>) -> bool {
    match patterns {
        Some(p) => forall|j: int| 0 <= j < p@.len() ==> (#[trigger] first_index_of(names, group_of(p@[j]@))) is Some,
        None => true,
    }
}

/// Whether every pattern of the list names one of the groups.
pub fn all_patterns_known<T>(groups: &Vec<(String, T)>, patterns: &Option<Vec<String>>) -> (r: bool)
    ensures
        r == patterns_known(group_names(groups@), *patterns),
{
    match patterns {
        None => true,
        Some(p) => {
            let mut j: usize = 0;
            while j < p.len()
                invariant
                    j <= p@.len(),
                    *patterns == Some(*p),
                    forall|k: int| 0 <= k < j ==> (#[trigger] first_index_of(group_names(groups@), group_of(p@[k]@))) is Some,
                decreases p@.len() - j,
            {
                let (_, group) = split_negations(p[j].as_str());
                if find_group(groups, &group).is_none() {
                    assert(first_index_of(group_names(groups@), group_of(p@[j as int]@)) is None);
                    return false;
                }
                j = j + 1;
            }
            true
        },
    }
}

/// The names of a list of named groups, copied.
pub fn names_of<T>(groups: &Vec<(String, T)>) -> (r: Vec<String>)
    ensures
        views(r@) == group_names(groups@),
{
    let mut out: Vec<String> = Vec::new();
    let mut i: usize = 0;
    while i < groups.len()
        invariant
            i <= groups@.len(),
            views(out@) == group_names(groups@.subrange(0, i as int)),
        decreases groups@.len() - i,
    {
        let ghost prev = out@;
        out.push(groups[i].0.clone());
        assert(views(out@) =~= views(prev).push(groups@[i as int].0@));
        assert(group_names(groups@.subrange(0, i + 1)) =~= group_names(groups@.subrange(0, i as int)).push(groups@[i as int].0@));
        i = i + 1;
    }
    assert(groups@.subrange(0, i as int) =~= groups@);
    out
}

impl Dispatcher {
    /// The rule engine of a built configuration.
    pub fn new(config: Config) -> (d: Dispatcher)
        ensures
            d.defaults == config.default_upstreams,
            views(d.upstreams@) == group_names(config.upstreams@),
            d.domains == config.domains,
            d.ranges == config.ranges,
            d.request_rules == config.request_rules,
            d.response_rules == config.response_rules,
    {
        let upstreams = names_of(&config.upstreams);
        Dispatcher {
            defaults: config.default_upstreams,
            upstreams,
            domains: config.domains,
            ranges: config.ranges,
            request_rules: config.request_rules,
            response_rules: config.response_rules,
        }
    }
}

/// Whether one of the answer addresses lies in the range.
pub fn answers_in_range(range: &IpRange, answers: &Vec<Option<IpAddress>>) -> (r: bool)
    ensures
        r == answers_hit(range@, answers@),
{
    let mut i: usize = 0;
    while i < answers.len()
        invariant
            i <= answers@.len(),
            forall|j: int| 0 <= j < i ==> !((#[trigger] answers@[j]) is Some && view_holds(range@, answers@[j]->0)),
        decreases answers@.len() - i,
    {
        match answers[i] {
            Some(a) => {
                if range.contains(a) {
                    return true;
                }
            },
            None => {},
        }
        i = i + 1;
    }
    false
}

impl Dispatcher {
    /// Evaluates one domain pattern against a query name.
    pub fn domain_pattern_matches(&self, pattern: &String, qname: &str) -> (r: bool)
        ensures
            r == domain_pattern_holds(self.domains@, pattern@, qname@),
    {
        let (negated, group) = split_negations(pattern.as_str());
        match find_group(&self.domains, &group) {
            Some(i) => self.domains[i].1.is_match(qname) != negated,
            None => false,
        }
    }

    /// Evaluates one range pattern against a response's answers.
    pub fn range_pattern_matches(&self, pattern: &String, answers: &Vec<Option<IpAddress>>) -> (r: bool)
        ensures
            r == range_pattern_holds(self.ranges@, pattern@, answers@),
    {
        let (negated, group) = split_negations(pattern.as_str());
        match find_group(&self.ranges, &group) {
            Some(i) => answers_in_range(&self.ranges[i].1, answers) != negated,
            None => false,
        }
    }

    /// Whether some domain pattern of the list holds of the name.
    pub fn any_domain_pattern_matches(&self, patterns: &Vec<String>, qname: &str) -> (r: bool)
        ensures
            r == any_domain_pattern(self.domains@, views(patterns@), qname@),
    {
        let mut j: usize = 0;
        while j < patterns.len()
            invariant
                j <= patterns@.len(),
                forall|k: int| 0 <= k < j ==> !domain_pattern_holds(self.domains@, #[trigger] views(patterns@)[k], qname@),
            decreases patterns@.len() - j,
        {
            if self.domain_pattern_matches(&patterns[j], qname) {
                assert(views(patterns@)[j as int] == patterns@[j as int]@);
                return true;
            }
            j = j + 1;
        }
        false
    }

    /// Whether some range pattern of the list holds of the answers.
    pub fn any_range_pattern_matches(&self, patterns: &Vec<String>, answers: &Vec<Option<IpAddress>>) -> (r: bool)
        ensures
            r == any_range_pattern(self.ranges@, views(patterns@), answers@),
    {
        let mut j: usize = 0;
        while j < patterns.len()
            invariant
                j <= patterns@.len(),
                forall|k: int| 0 <= k < j ==> !range_pattern_holds(self.ranges@, #[trigger] views(patterns@)[k], answers@),
            decreases patterns@.len() - j,
        {
            if self.range_pattern_matches(&patterns[j], answers) {
                assert(views(patterns@)[j as int] == patterns@[j as int]@);
                return true;
            }
            j = j + 1;
        }
        false
    }

    /// Whether a request rule matches the query.
    pub fn request_rule_matches(&self, rule: &RequestRule, qname: &str, qtype: u16) -> (r: bool)
        ensures
            r == self.request_matches(*rule, qname@, qtype),
    {
        let domains_ok = match &rule.domains {
            Some(d) => self.any_domain_pattern_matches(d, qname),
            None => true,
        };
        let types_ok = match &rule.types {
            Some(t) => contains_u16(t, qtype),
            None => true,
        };
        domains_ok && types_ok
    }

    /// Routing: the upstreams of the first request rule that matches the
    /// query, else the default upstreams.
    pub fn route(&self, qname: &str, qtype: u16) -> (r: Vec<String>)
        ensures
            views(r@) == self.routed(qname@, qtype),
    {
        let mut i: usize = 0;
        while i < self.request_rules.len()
            invariant
                i <= self.request_rules@.len(),
                self.first_request_match(qname@, qtype) == self.first_request_match_from(i as int, qname@, qtype),
            decreases self.request_rules@.len() - i,
        {
            if self.request_rule_matches(&self.request_rules[i], qname, qtype) {
                return clone_names(&self.request_rules[i].upstreams);
            }
            i = i + 1;
        }
        clone_names(&self.defaults)
    }

    /// Whether a response rule matches a response.
    pub fn response_rule_matches(&self, rule: &ResponseRule, qname: &str, upstream: &String, answers: &Vec<Option<IpAddress>>) -> (r: bool)
        ensures
            r == self.response_matches(*rule, qname@, upstream@, answers@),
    {
        let upstream_ok = match &rule.upstreams {
            Some(u) => contains_name(u, upstream),
            None => true,
        };
        let ranges_ok = match &rule.ranges {
            Some(p) => self.any_range_pattern_matches(p, answers),
            None => true,
        };
        let domains_ok = match &rule.domains {
            Some(p) => self.any_domain_pattern_matches(p, qname),
            None => true,
        };
        upstream_ok && ranges_ok && domains_ok
    }

    /// Judges a response from `upstream` to a query of name `qname`: an
    /// empty answer is dropped; else the first matching response rule
    /// decides; else it is accepted.
    pub fn check_response(&self, qname: &str, upstream: &String, answers: &Vec<Option<IpAddress>>) -> (r: RuleAction)
        ensures
            r == self.decision(qname@, upstream@, answers@),
    {
        if answers.len() == 0 {
            return RuleAction::Drop;
        }
        let mut i: usize = 0;
        while i < self.response_rules.len()
            invariant
                i <= self.response_rules@.len(),
                answers@.len() > 0,
                self.decision(qname@, upstream@, answers@) == self.response_action_from(i as int, qname@, upstream@, answers@),
            decreases self.response_rules@.len() - i,
        {
            if self.response_rule_matches(&self.response_rules[i], qname, upstream, answers) {
                return self.response_rules[i].action;
            }
            i = i + 1;
        }
        RuleAction::Accept
    }
}

/// Whether `code` is in the list.
fn contains_u16(v: &Vec<u16>, code: u16) -> (r: bool)
    ensures
        r == v@.contains(code),
{
    let mut i: usize = 0;
    while i < v.len()
        invariant
            i <= v@.len(),
            forall|j: int| 0 <= j < i ==> v@[j] != code,
        decreases v@.len() - i,
    {
        if v[i] == code {
            return true;
        }
        i = i + 1;
    }
    false
}

/// Whether `name` is in the list.
pub fn contains_name(v: &Vec<String>, name: &String) -> (r: bool)
    ensures
        r == views(v@).contains(name@),
{
    let mut i: usize = 0;
    while i < v.len()
        invariant
            i <= v@.len(),
            forall|j: int| 0 <= j < i ==> (#[trigger] v@[j])@ != name@,
        decreases v@.len() - i,
    {
        if v[i] == *name {
            assert(views(v@)[i as int] == name@);
            return true;
        }
        i = i + 1;
    }
    assert forall|j: int| 0 <= j < views(v@).len() implies views(v@)[j] != name@ by {
        assert(views(v@)[j] == v@[j]@);
    }
    false
}

/// A copy of a list of names.
pub fn clone_names(v: &Vec<String>) -> (r: Vec<String>)
    ensures
        views(r@) == views(v@),
{
    let mut out: Vec<String> = Vec::new();
    let mut i: usize = 0;
    while i < v.len()
        invariant
            i <= v@.len(),
            views(out@) == views(v@.subrange(0, i as int)),
        decreases v@.len() - i,
    {
        let ghost prev = out@;
        out.push(v[i].clone());
        assert(views(out@) =~= views(prev).push(v@[i as int]@));
        assert(views(v@.subrange(0, i + 1)) =~= views(v@.subrange(0, i as int)).push(v@[i as int]@));
        i = i + 1;
    }
    assert(v@.subrange(0, i as int) =~= v@);
    out
}

/// The names of `names` that are in `known`, in order.
pub open spec fn known_only(names: Seq<Seq<char>>, known: Seq<Seq<char>>) -> Seq<Seq<char>>
    decreases names.len(),
{
    if names.len() == 0 {
        Seq::empty()
    } else {
        let prev = known_only(names.drop_last(), known);
        if known.contains(names.last()) {
            prev.push(names.last())
        } else {
            prev
        }
    }
}

impl Dispatcher {
    /// The upstreams to ask for a query: the routed ones that are configured.
    pub fn dispatch(&self, qname: &str, qtype: u16) -> (r: Vec<String>)
        ensures
            views(r@) == known_only(self.routed(qname@, qtype), views(self.upstreams@)),
    {
        let routed = self.route(qname, qtype);
        let mut out: Vec<String> = Vec::new();
        let mut i: usize = 0;
        while i < routed.len()
            invariant
                i <= routed@.len(),
                views(routed@) == self.routed(qname@, qtype),
                views(out@) == known_only(views(routed@.subrange(0, i as int)), views(self.upstreams@)),
            decreases routed@.len() - i,
        {
            let ghost sub = views(routed@.subrange(0, i + 1));
            assert(sub.drop_last() =~= views(routed@.subrange(0, i as int)));
            assert(sub.last() == routed@[i as int]@);
            if contains_name(&self.upstreams, &routed[i]) {
                let ghost prev = out@;
                out.push(routed[i].clone());
                assert(views(out@) =~= views(prev).push(routed@[i as int]@));
            }
            i = i + 1;
        }
        assert(routed@.subrange(0, i as int) =~= routed@);
        out
    }
}

proof fn lemma_first_request_match_from(d: Dispatcher, i: int, qname: Seq<char>, qtype: u16)
    requires
        0 <= i,
    ensures
        match d.first_request_match_from(i, qname, qtype) {
            Some(k) => i <= k < d.request_rules@.len() && d.request_matches(d.request_rules@[k], qname, qtype)
                && forall|j: int| i <= j < k ==> !d.request_matches(#[trigger] d.request_rules@[j], qname, qtype),
            None => forall|j: int| i <= j < d.request_rules@.len() ==> !d.request_matches(#[trigger] d.request_rules@[j], qname, qtype),
        },
    decreases d.request_rules@.len() - i,
{
    if i < d.request_rules@.len() && !d.request_matches(d.request_rules@[i], qname, qtype) {
        lemma_first_request_match_from(d, i + 1, qname, qtype);
    }
}

/// First-match routing: the routed upstreams are those of the first request
/// rule that matches the query; when no rule matches, the defaults.
pub proof fn lemma_first_match_routing(d: Dispatcher, qname: Seq<char>, qtype: u16)
    ensures
        forall|i: int| 0 <= i < d.request_rules@.len() && d.request_matches(d.request_rules@[i], qname, qtype)
            && (forall|j: int| 0 <= j < i ==> !d.request_matches(#[trigger] d.request_rules@[j], qname, qtype))
            ==> d.routed(qname, qtype) == views(d.request_rules@[i].upstreams@),
        (forall|j: int| 0 <= j < d.request_rules@.len() ==> !d.request_matches(#[trigger] d.request_rules@[j], qname, qtype))
            ==> d.routed(qname, qtype) == views(d.defaults@),
{
    lemma_first_request_match_from(d, 0, qname, qtype);
    assert forall|i: int| 0 <= i < d.request_rules@.len() && d.request_matches(d.request_rules@[i], qname, qtype)
        && (forall|j: int| 0 <= j < i ==> !d.request_matches(#[trigger] d.request_rules@[j], qname, qtype))
        implies d.routed(qname, qtype) == views(d.request_rules@[i].upstreams@) by {
        match d.first_request_match(qname, qtype) {
            Some(k) => {
                if k < i {
                    assert(!d.request_matches(d.request_rules@[k], qname, qtype));
                } else if k > i {
                    assert(!d.request_matches(d.request_rules@[i], qname, qtype));
                }
            },
            None => {
                assert(!d.request_matches(d.request_rules@[i], qname, qtype));
            },
        }
    }
    if forall|j: int| 0 <= j < d.request_rules@.len() ==> !d.request_matches(#[trigger] d.request_rules@[j], qname, qtype) {
        match d.first_request_match(qname, qtype) {
            Some(k) => {
                assert(!d.request_matches(d.request_rules@[k], qname, qtype));
            },
            None => {},
        }
    }
}

/// Negation parity for domain patterns: `k` sigils before the name `g` of
/// a configured domain group give the group's match on the query name,
/// inverted exactly when `k` is odd.
pub proof fn lemma_domain_negation_parity(groups: Seq<(String, Domains)>, k: nat, g: Seq<char>, qname: Seq<char>)
    requires
        !(g.len() > 0 && g[0] == '!'),
        first_index_of(group_names(groups), g) is Some,
    ensures
        domain_pattern_holds(groups, bangs(k) + g, qname) == (any_matches(
            groups[first_index_of(group_names(groups), g)->0].1@,
            qname,
        ) != (k % 2 == 1)),
{
    lemma_negation_parity(k, g);
}

/// Negation parity for range patterns: `k` sigils before the name `g` of a
/// configured range group give whether the group holds an answer address,
/// inverted exactly when `k` is odd.
pub proof fn lemma_range_negation_parity(groups: Seq<(String, IpRange)>, k: nat, g: Seq<char>, answers: Seq<Option<IpAddress>>)
    requires
        !(g.len() > 0 && g[0] == '!'),
        first_index_of(group_names(groups), g) is Some,
    ensures
        range_pattern_holds(groups, bangs(k) + g, answers) == (answers_hit(
            groups[first_index_of(group_names(groups), g)->0].1@,
            answers,
        ) != (k % 2 == 1)),
{
    lemma_negation_parity(k, g);
}

/// A first index found in a prefix is the first index in the whole list.
proof fn lemma_first_index_prefix(names: Seq<Seq<char>>, k: int, n: Seq<char>)
    requires
        0 <= k <= names.len(),
        first_index_of(names.subrange(0, k), n) is Some,
    ensures
        first_index_of(names, n) == first_index_of(names.subrange(0, k), n),
    decreases names.len() - k,
{
    if k < names.len() {
        assert(names.subrange(0, k + 1).drop_last() =~= names.subrange(0, k));
        lemma_first_index_prefix(names, k + 1, n);
    } else {
        assert(names.subrange(0, k) =~= names);
    }
}

} // verus!
