//! The race of one query over its upstreams: the first accepted response
//! wins; drops and failures let the race go on; exhaustion is SERVFAIL.
use crate::config::RuleAction;
use vstd::prelude::*;

verus! {

/// What became of one upstream's query.
#[derive(Clone, Copy, Debug, PartialEq, Eq, Structural)]
pub enum RaceEvent {
    /// A response came, and the rules judged it.
    Answered(RuleAction),
    /// The query failed.
    Failed,
}

/// How the race ends, once it has.
#[derive(Clone, Copy, Debug, PartialEq, Eq, Structural)]
pub enum RaceOutcome {
    /// A response was accepted: it is the reply.
    Accepted,
    /// No response was accepted: the reply is SERVFAIL.
    ServFail,
}

/// What to do after an event.
#[derive(Clone, Copy, Debug, PartialEq, Eq, Structural)]
pub enum RaceStep {
    /// Reply with the response just judged; detach the other queries.
    Reply,
    /// Wait for the next query to finish.
    Wait,
    /// Reply SERVFAIL: every query was dropped or failed.
    ServFail,
    /// The race had already ended: discard this result.
    Ignore,
}

/// The state of the race of one query over its upstreams.
#[derive(Clone, Copy, Debug, PartialEq, Eq, Structural)]
pub struct Race {
    /// Queries still running.
    pub pending: usize,
    /// Responses dropped by the rules.
    pub dropped: usize,
    /// Queries that failed.
    pub failed: usize,
    /// How the race ended, if it has.
    pub outcome: Option<RaceOutcome>,
}

/// One step of the race: the next state and what to do.
pub open spec fn race_step(r: Race, e: RaceEvent) -> (Race, RaceStep) {
    if r.outcome is Some || r.pending == 0 {
        (r, RaceStep::Ignore)
    } else {
        let pending = (r.pending - 1) as usize;
        match e {
            RaceEvent::Answered(RuleAction::Accept) => (
                Race { pending, outcome: Some(RaceOutcome::Accepted), ..r },
                RaceStep::Reply,
            ),
            RaceEvent::Answered(RuleAction::Drop) => {
                let outcome = if pending == 0 { Some(RaceOutcome::ServFail) } else { None };
                (
                    Race { pending, dropped: (r.dropped + 1) as usize, outcome, ..r },
                    if pending == 0 { RaceStep::ServFail } else { RaceStep::Wait },
                )
            },
            RaceEvent::Failed => {
                let outcome = if pending == 0 { Some(RaceOutcome::ServFail) } else { None };
                (
                    Race { pending, failed: (r.failed + 1) as usize, outcome, ..r },
                    if pending == 0 { RaceStep::ServFail } else { RaceStep::Wait },
                )
            },
        }
    }
}

/// The state after a sequence of events.
pub open spec fn race_run(r: Race, events: Seq<RaceEvent>) -> Race
    decreases events.len(),
{
    if events.len() == 0 {
        r
    } else {
        race_run(race_step(r, events[0]).0, events.skip(1))
    }
}

/// The state at the start of a race over `n` upstreams.
pub open spec fn race_start(n: usize) -> Race {
    Race {
        pending: n,
        dropped: 0,
        failed: 0,
        outcome: if n == 0 { Some(RaceOutcome::ServFail) } else { None },
    }
}

impl Race {
    /// The counts fit, and the race is over once no query is pending.
    pub open spec fn wf(&self) -> bool {
        &&& self.pending + self.dropped + self.failed <= usize::MAX
        &&& (self.pending == 0 ==> self.outcome is Some)
    }

    /// A race over `n` upstreams; with none, it is over at once.
    pub fn new(n: usize) -> (r: Race)
        ensures
            r == race_start(n),
            r.wf(),
    {
        Race {
            pending: n,
            dropped: 0,
            failed: 0,
            outcome: if n == 0 { Some(RaceOutcome::ServFail) } else { None },
        }
    }

    /// Records what became of one query, and says what to do.
    pub fn on_event(&mut self, e: RaceEvent) -> (s: RaceStep)
        requires
            old(self).wf(),
        ensures
            (*final(self), s) == race_step(*old(self), e),
            final(self).wf(),
    {
        if self.outcome.is_some() || self.pending == 0 {
            return RaceStep::Ignore;
        }
        self.pending = self.pending - 1;
        match e {
            RaceEvent::Answered(RuleAction::Accept) => {
                self.outcome = Some(RaceOutcome::Accepted);
                RaceStep::Reply
            },
            RaceEvent::Answered(RuleAction::Drop) => {
                self.dropped = self.dropped + 1;
                if self.pending == 0 {
                    self.outcome = Some(RaceOutcome::ServFail);
                    RaceStep::ServFail
                } else {
                    RaceStep::Wait
                }
            },
            RaceEvent::Failed => {
                self.failed = self.failed + 1;
                if self.pending == 0 {
                    self.outcome = Some(RaceOutcome::ServFail);
                    RaceStep::ServFail
                } else {
                    RaceStep::Wait
                }
            },
        }
    }
}

proof fn lemma_drops_end_in_servfail(r: Race, events: Seq<RaceEvent>)
    requires
        r.wf(),
        r.outcome is None,
        events.len() == r.pending,
        forall|i: int| 0 <= i < events.len() ==> (#[trigger] events[i]) != RaceEvent::Answered(RuleAction::Accept),
    ensures
        race_run(r, events).outcome == Some(RaceOutcome::ServFail),
    decreases events.len(),
{
    let next = race_step(r, events[0]).0;
    if next.pending > 0 {
        assert forall|i: int| 0 <= i < events.skip(1).len() implies (#[trigger] events.skip(1)[i]) != RaceEvent::Answered(RuleAction::Accept) by {
            assert(events.skip(1)[i] == events[i + 1]);
        }
        lemma_drops_end_in_servfail(next, events.skip(1));
    } else {
        lemma_ended_race_is_fixed(next, events.skip(1));
    }
}

/// Drop cascade: when every upstream's response is dropped by the rules
/// (or its query fails), the race ends in SERVFAIL.
pub proof fn lemma_drop_cascade(n: usize, events: Seq<RaceEvent>)
    requires
        events.len() == n,
        forall|i: int| 0 <= i < events.len() ==> (#[trigger] events[i]) != RaceEvent::Answered(RuleAction::Accept),
    ensures
        race_run(race_start(n), events).outcome == Some(RaceOutcome::ServFail),
{
    if n == 0 {
        lemma_ended_race_is_fixed(race_start(n), events);
    } else {
        lemma_drops_end_in_servfail(race_start(n), events);
    }
}

/// Once the race has ended, no later event changes it.
pub proof fn lemma_ended_race_is_fixed(r: Race, events: Seq<RaceEvent>)
    requires
        r.outcome is Some,
    ensures
        race_run(r, events) == r,
    decreases events.len(),
{
    if events.len() > 0 {
        lemma_ended_race_is_fixed(r, events.skip(1));
    }
}

/// Accept is terminal: after an accepted response, whatever else arrives,
/// the race stays accepted and every later event is ignored.
pub proof fn lemma_accept_is_terminal(r: Race, later: Seq<RaceEvent>)
    requires
        r.outcome == Some(RaceOutcome::Accepted),
    ensures
        race_run(r, later).outcome == Some(RaceOutcome::Accepted),
        forall|i: int| 0 <= i < later.len() ==> race_step(race_run(r, later.take(i)), #[trigger] later[i]).1 == RaceStep::Ignore,
{
    lemma_ended_race_is_fixed(r, later);
    assert forall|i: int| 0 <= i < later.len() implies race_step(race_run(r, later.take(i)), #[trigger] later[i]).1 == RaceStep::Ignore by {
        lemma_ended_race_is_fixed(r, later.take(i));
    }
}

/// The header of a reply.
#[derive(Clone, Copy, Debug, PartialEq, Eq, Structural)]
pub struct ReplyHeader {
    /// The request's id.
    pub id: u16,
    /// Always set: this is a response.
    pub is_response: bool,
    /// The request's opcode.
    pub op_code: u8,
    /// NOERROR when a response was accepted, else SERVFAIL.
    pub response_code: u16,
}

/// The response code NOERROR.
pub const NO_ERROR: u16 = 0;

/// The response code SERVFAIL.
pub const SERV_FAIL: u16 = 2;

/// The header of the reply to a request with this id and opcode.
pub fn reply_header(id: u16, op_code: u8, accepted: bool) -> (r: ReplyHeader)
    ensures
        r.id == id,
        r.is_response,
        r.op_code == op_code,
        r.response_code == (if accepted { NO_ERROR } else { SERV_FAIL }),
{
    ReplyHeader { id, is_response: true, op_code, response_code: if accepted { NO_ERROR } else { SERV_FAIL } }
}

} // verus!
