use yadd::config::RuleAction;
use yadd::race::{reply_header, Race, RaceEvent, RaceOutcome, RaceStep, NO_ERROR, SERV_FAIL};

#[test]
fn all_dropped_is_servfail() {
    let mut race = Race::new(3);
    assert_eq!(race.on_event(RaceEvent::Answered(RuleAction::Drop)), RaceStep::Wait);
    assert_eq!(race.on_event(RaceEvent::Answered(RuleAction::Drop)), RaceStep::Wait);
    assert_eq!(race.on_event(RaceEvent::Answered(RuleAction::Drop)), RaceStep::ServFail);
    assert_eq!(race.outcome, Some(RaceOutcome::ServFail));
    assert_eq!(race.dropped, 3);
}

#[test]
fn drops_and_failures_are_servfail() {
    let mut race = Race::new(2);
    assert_eq!(race.on_event(RaceEvent::Failed), RaceStep::Wait);
    assert_eq!(race.on_event(RaceEvent::Answered(RuleAction::Drop)), RaceStep::ServFail);
    assert_eq!((race.failed, race.dropped, race.pending), (1, 1, 0));
}

#[test]
fn all_failed_is_servfail() {
    let mut race = Race::new(1);
    assert_eq!(race.on_event(RaceEvent::Failed), RaceStep::ServFail);
    assert_eq!(race.outcome, Some(RaceOutcome::ServFail));
}

#[test]
fn no_upstream_is_servfail_at_once() {
    let mut race = Race::new(0);
    assert_eq!(race.outcome, Some(RaceOutcome::ServFail));
    assert_eq!(race.on_event(RaceEvent::Answered(RuleAction::Accept)), RaceStep::Ignore);
    assert_eq!(race.outcome, Some(RaceOutcome::ServFail));
}

#[test]
fn accept_is_final() {
    let mut race = Race::new(3);
    assert_eq!(race.on_event(RaceEvent::Answered(RuleAction::Drop)), RaceStep::Wait);
    assert_eq!(race.on_event(RaceEvent::Answered(RuleAction::Accept)), RaceStep::Reply);
    let after = race;
    assert_eq!(race.on_event(RaceEvent::Answered(RuleAction::Accept)), RaceStep::Ignore);
    assert_eq!(race.on_event(RaceEvent::Failed), RaceStep::Ignore);
    assert_eq!(race, after);
    assert_eq!(race.outcome, Some(RaceOutcome::Accepted));
}

#[test]
fn reply_headers() {
    let ok = reply_header(0x1234, 0, true);
    assert_eq!((ok.id, ok.is_response, ok.op_code, ok.response_code), (0x1234, true, 0, NO_ERROR));
    let fail = reply_header(7, 2, false);
    assert_eq!((fail.id, fail.is_response, fail.op_code, fail.response_code), (7, true, 2, SERV_FAIL));
    assert_eq!(SERV_FAIL, 2);
    assert_eq!(NO_ERROR, 0);
}
