use yadd::config::{RequestRule, ResponseRule, RuleAction};
use yadd::dispatcher::Dispatcher;
use yadd::domain::{Domains, DomainsConf};
use yadd::ip::{Cidr, IpAddress, IpRange};
use yadd::pattern::split_negations;
use yadd::race::{Race, RaceEvent, RaceStep};

fn s(x: &str) -> String {
    x.to_string()
}

fn names(v: &[&str]) -> Vec<String> {
    v.iter().map(|x| x.to_string()).collect()
}

fn domains(list: &[&str]) -> Domains {
    DomainsConf { file_lines: vec![], list: names(list) }.build().unwrap()
}

fn a(x: [u8; 4]) -> Option<IpAddress> {
    Some(IpAddress::V4(u32::from_be_bytes(x)))
}

fn cn() -> IpRange {
    let mut r = IpRange::new();
    r.add(Cidr::V4 { addr: u32::from_be_bytes([1, 2, 0, 0]), len: 16 });
    r.simplify();
    r
}

fn dispatcher(
    defaults: &[&str],
    upstreams: &[&str],
    request_rules: Vec<RequestRule>,
    response_rules: Vec<ResponseRule>,
) -> Dispatcher {
    Dispatcher {
        defaults: names(defaults),
        upstreams: names(upstreams),
        domains: vec![
            (s("ads"), domains(&["ad.x"])),
            (s("allow"), domains(&["good.com"])),
            (s("cn-sites"), domains(&["example.cn"])),
        ],
        ranges: vec![(s("cn"), cn())],
        request_rules,
        response_rules,
    }
}

#[test]
fn sigils_split_by_parity() {
    assert_eq!(split_negations("allow"), (false, s("allow")));
    assert_eq!(split_negations("!allow"), (true, s("allow")));
    assert_eq!(split_negations("!!allow"), (false, s("allow")));
    assert_eq!(split_negations("!!!allow"), (true, s("allow")));
    assert_eq!(split_negations("!"), (true, s("")));
    assert_eq!(split_negations("a!b"), (false, s("a!b")));
}

#[test]
fn negation_parity_of_domain_patterns() {
    let d = dispatcher(&["A"], &["A"], vec![], vec![]);
    let plain = d.domain_pattern_matches(&s("allow"), "good.com");
    assert!(plain);
    for k in 0..5usize {
        let p = format!("{}allow", "!".repeat(k));
        assert_eq!(d.domain_pattern_matches(&p, "good.com"), plain ^ (k % 2 == 1));
        assert_eq!(d.domain_pattern_matches(&p, "bad.com"), k % 2 == 1);
    }
}

#[test]
fn negation_parity_of_range_patterns() {
    let d = dispatcher(&["A"], &["A"], vec![], vec![]);
    let inside = vec![a([1, 2, 3, 4])];
    let outside = vec![a([9, 9, 9, 9])];
    for k in 0..4usize {
        let p = format!("{}cn", "!".repeat(k));
        assert_eq!(d.range_pattern_matches(&p, &inside), k % 2 == 0);
        assert_eq!(d.range_pattern_matches(&p, &outside), k % 2 == 1);
    }
}

#[test]
fn unknown_group_never_matches() {
    let d = dispatcher(&["A"], &["A"], vec![], vec![]);
    assert!(!d.domain_pattern_matches(&s("nosuch"), "good.com"));
    assert!(!d.domain_pattern_matches(&s("!nosuch"), "good.com"));
    assert!(!d.range_pattern_matches(&s("!nosuch"), &vec![a([1, 2, 3, 4])]));
}

#[test]
fn range_predicate_ignores_non_address_answers() {
    let d = dispatcher(&["A"], &["A"], vec![], vec![]);
    assert!(!d.range_pattern_matches(&s("cn"), &vec![None, None]));
    assert!(d.range_pattern_matches(&s("cn"), &vec![None, a([9, 9, 9, 9]), a([1, 2, 9, 9])]));
}

#[test]
fn first_matching_request_rule_routes() {
    let rules = vec![
        RequestRule { domains: Some(names(&["cn-sites"])), types: Some(vec![28]), upstreams: names(&["v6"]) },
        RequestRule { domains: Some(names(&["cn-sites"])), types: None, upstreams: names(&["china"]) },
        RequestRule { domains: None, types: Some(vec![16]), upstreams: names(&["txt"]) },
    ];
    let d = dispatcher(&["A", "B"], &["A", "B", "v6", "china", "txt"], rules, vec![]);
    assert_eq!(d.route("www.example.cn", 28), names(&["v6"]));
    assert_eq!(d.route("www.example.cn", 1), names(&["china"]));
    assert_eq!(d.route("www.example.cn", 16), names(&["china"]));
    assert_eq!(d.route("other.org", 16), names(&["txt"]));
    assert_eq!(d.route("other.org", 1), names(&["A", "B"]));
}

#[test]
fn dispatch_keeps_configured_upstreams_only() {
    let rules = vec![RequestRule { domains: None, types: Some(vec![1]), upstreams: names(&["gone", "A"]) }];
    let d = dispatcher(&["A", "B"], &["A", "B"], rules, vec![]);
    assert_eq!(d.dispatch("x.org", 1), names(&["A"]));
    assert_eq!(d.dispatch("x.org", 28), names(&["A", "B"]));
    let d = dispatcher(&["A"], &["A"], vec![RequestRule { domains: None, types: None, upstreams: names(&["gone"]) }], vec![]);
    assert_eq!(d.dispatch("x.org", 1), Vec::<String>::new());
}

#[test]
fn single_upstream_relays_its_answer() {
    let d = dispatcher(&["A"], &["A"], vec![], vec![]);
    let ups = d.dispatch("example.com", 1);
    assert_eq!(ups, names(&["A"]));
    let answers = vec![a([93, 184, 216, 34])];
    let mut race = Race::new(ups.len());
    let action = d.check_response("example.com", &ups[0], &answers);
    assert_eq!(action, RuleAction::Accept);
    assert_eq!(race.on_event(RaceEvent::Answered(action)), RaceStep::Reply);
}

fn cn_drop_rules() -> Vec<ResponseRule> {
    vec![ResponseRule {
        upstreams: Some(names(&["A"])),
        ranges: Some(names(&["cn"])),
        domains: None,
        action: RuleAction::Drop,
    }]
}

#[test]
fn domestic_answer_from_a_is_dropped_for_b() {
    let d = dispatcher(&["A", "B"], &["A", "B"], vec![], cn_drop_rules());
    let ups = d.dispatch("example.com", 1);
    assert_eq!(ups, names(&["A", "B"]));
    let mut race = Race::new(ups.len());
    let from_a = d.check_response("example.com", &s("A"), &vec![a([1, 2, 3, 4])]);
    assert_eq!(from_a, RuleAction::Drop);
    assert_eq!(race.on_event(RaceEvent::Answered(from_a)), RaceStep::Wait);
    let from_b = d.check_response("example.com", &s("B"), &vec![a([5, 6, 7, 8])]);
    assert_eq!(from_b, RuleAction::Accept);
    assert_eq!(race.on_event(RaceEvent::Answered(from_b)), RaceStep::Reply);
}

#[test]
fn foreign_answer_from_a_wins_when_first() {
    let d = dispatcher(&["A", "B"], &["A", "B"], vec![], cn_drop_rules());
    let mut race = Race::new(2);
    let from_a = d.check_response("example.com", &s("A"), &vec![a([9, 9, 9, 9])]);
    assert_eq!(from_a, RuleAction::Accept);
    assert_eq!(race.on_event(RaceEvent::Answered(from_a)), RaceStep::Reply);
    let from_b = d.check_response("example.com", &s("B"), &vec![a([5, 6, 7, 8])]);
    assert_eq!(race.on_event(RaceEvent::Answered(from_b)), RaceStep::Ignore);
}

#[test]
fn request_rule_sends_ads_to_sink_only() {
    let rules = vec![RequestRule { domains: Some(names(&["ads"])), types: None, upstreams: names(&["sink"]) }];
    let d = dispatcher(&["A", "B"], &["A", "B", "sink"], rules, vec![]);
    assert_eq!(d.dispatch("ad.x", 1), names(&["sink"]));
    assert_eq!(d.dispatch("example.com", 1), names(&["A", "B"]));
}

#[test]
fn negated_allow_list_drops_others() {
    let rules = vec![ResponseRule { upstreams: None, ranges: None, domains: Some(names(&["!allow"])), action: RuleAction::Drop }];
    let d = dispatcher(&["A"], &["A"], vec![], rules);
    assert_eq!(d.check_response("bad.com", &s("A"), &vec![a([6, 6, 6, 6])]), RuleAction::Drop);
    assert_eq!(d.check_response("good.com", &s("A"), &vec![a([6, 6, 6, 6])]), RuleAction::Accept);
}

#[test]
fn empty_answer_is_dropped() {
    let d = dispatcher(&["A"], &["A"], vec![], vec![]);
    assert_eq!(d.check_response("example.com", &s("A"), &vec![]), RuleAction::Drop);
}

#[test]
fn first_matching_response_rule_decides() {
    let rules = vec![
        ResponseRule { upstreams: Some(names(&["B"])), ranges: None, domains: None, action: RuleAction::Accept },
        ResponseRule { upstreams: None, ranges: Some(names(&["cn"])), domains: None, action: RuleAction::Drop },
    ];
    let d = dispatcher(&["A", "B"], &["A", "B"], vec![], rules);
    assert_eq!(d.check_response("x.org", &s("B"), &vec![a([1, 2, 3, 4])]), RuleAction::Accept);
    assert_eq!(d.check_response("x.org", &s("A"), &vec![a([1, 2, 3, 4])]), RuleAction::Drop);
    assert_eq!(d.check_response("x.org", &s("A"), &vec![None]), RuleAction::Accept);
}

#[test]
fn rule_with_all_predicates_needs_all() {
    let rules = vec![ResponseRule {
        upstreams: Some(names(&["A"])),
        ranges: Some(names(&["cn"])),
        domains: Some(names(&["allow"])),
        action: RuleAction::Drop,
    }];
    let d = dispatcher(&["A"], &["A"], vec![], rules);
    assert_eq!(d.check_response("good.com", &s("A"), &vec![a([1, 2, 3, 4])]), RuleAction::Drop);
    assert_eq!(d.check_response("bad.com", &s("A"), &vec![a([1, 2, 3, 4])]), RuleAction::Accept);
    assert_eq!(d.check_response("good.com", &s("A"), &vec![a([3, 3, 3, 3])]), RuleAction::Accept);
    assert_eq!(d.check_response("good.com", &s("B"), &vec![a([1, 2, 3, 4])]), RuleAction::Accept);
}
