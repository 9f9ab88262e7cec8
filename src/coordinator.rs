//! Single-instance coordination: before a daemon binds anything it reads the
//! persisted record of a previous daemon and probes each endpoint listed
//! there. Only when every one answers the probe with success does the new
//! process attach to that daemon instead of starting its own listeners.

use vstd::prelude::*;
use crate::message::Response;
use crate::record::{parse_record, record_entries, views};

verus! {

/// How long, in seconds, a probe waits for each of its write and its read.
pub const PROBE_TIMEOUT_SECS: u64 = 1;

/// What one liveness probe of an endpoint came to.
#[derive(Debug)]
pub enum ProbeReply {
    /// No connection could be made.
    Unreachable,
    /// The request could not be written, or the response not read.
    Failed,
    /// The write or the read did not finish in time.
    TimedOut,
    /// The peer closed before it answered.
    Closed,
    /// The peer answered.
    Answered(Response),
}

/// Whether a probe found the endpoint alive: it answered with success.
pub open spec fn probe_alive(reply: ProbeReply) -> bool {
    reply matches ProbeReply::Answered(Response::Success)
}

/// Whether a probe found the endpoint alive.
pub fn is_alive(reply: &ProbeReply) -> (r: bool)
    ensures
        r == probe_alive(*reply),
{
    match reply {
        ProbeReply::Answered(Response::Success) => true,
        _ => false,
    }
}

/// Where the coordination stands.
#[derive(Debug, Clone, Copy, PartialEq, Eq, Structural)]
pub enum CoordPhase {
    /// Probing the recorded endpoints in order.
    Probing,
    /// No record, or a recorded endpoint did not answer: the record is stale.
    Stale,
}

/// What the caller is to do next.
#[derive(Debug, Clone, Copy, PartialEq, Eq, Structural)]
pub enum CoordStep {
    /// Probe the recorded endpoint with this index.
    Probe(usize),
    /// Every recorded endpoint answered: report them and bind nothing.
    Attach,
    /// Start listening on the requested endpoints.
    StartListening,
}

/// The abstract state of a coordination.
pub struct CoordView {
    pub entries: Seq<Seq<u8>>,
    pub confirmed: nat,
    pub phase: CoordPhase,
}

/// The state in which coordination starts from the record found, if any.
pub open spec fn initial(record: Option<Seq<u8>>) -> CoordView {
    match record {
        Some(b) => CoordView { entries: record_entries(b), confirmed: 0, phase: CoordPhase::Probing },
        None => CoordView { entries: seq![], confirmed: 0, phase: CoordPhase::Stale },
    }
}

/// The step that a state calls for.
pub open spec fn step_of(v: CoordView) -> CoordStep {
    match v.phase {
        CoordPhase::Stale => CoordStep::StartListening,
        CoordPhase::Probing => if v.confirmed < v.entries.len() {
            CoordStep::Probe(v.confirmed as usize)
        } else {
            CoordStep::Attach
        },
    }
}

/// The state after the probe of the next endpoint found it alive or not.
pub open spec fn after_probe(v: CoordView, alive: bool) -> CoordView {
    if alive {
        CoordView { confirmed: v.confirmed + 1, ..v }
    } else {
        CoordView { phase: CoordPhase::Stale, ..v }
    }
}

/// The state reached when the probes are answered by `answers`, one for each
/// recorded endpoint, until a step other than a probe is called for.
pub open spec fn settle(v: CoordView, answers: Seq<bool>) -> CoordView
    decreases v.entries.len() - v.confirmed,
{
    if step_of(v) is Probe && v.confirmed < v.entries.len() {
        if answers[v.confirmed as int] {
            settle(after_probe(v, true), answers)
        } else {
            after_probe(v, false)
        }
    } else {
        v
    }
}

/// One coordination, driven by the caller's probes.
pub struct Coordinator {
    entries: Vec<Vec<u8>>,
    confirmed: usize,
    phase: CoordPhase,
}

impl Coordinator {
    pub closed spec fn view(&self) -> CoordView {
        CoordView {
            entries: views(self.entries@),
            confirmed: self.confirmed as nat,
            phase: self.phase,
        }
    }

    pub closed spec fn wf(&self) -> bool {
        self.confirmed <= self.entries@.len()
    }

    /// Starts coordination from the contents of the persisted record, or
    /// `None` when there is none.
    pub fn new(record: Option<&[u8]>) -> (r: Coordinator)
        ensures
            r.wf(),
            r.view() == initial(
                match record {
                    Some(b) => Some(b@),
                    None => None,
                },
            ),
    {
        match record {
            Some(b) => Coordinator {
                entries: parse_record(b),
                confirmed: 0,
                phase: CoordPhase::Probing,
            },
            None => {
                let r = Coordinator { entries: Vec::new(), confirmed: 0, phase: CoordPhase::Stale };
                assert(views(r.entries@) =~= seq![]);
                r
            },
        }
    }

    /// What to do next.
    pub fn next_step(&self) -> (r: CoordStep)
        requires
            self.wf(),
        ensures
            r == step_of(self.view()),
    {
        match self.phase {
            CoordPhase::Stale => CoordStep::StartListening,
            CoordPhase::Probing => {
                if self.confirmed < self.entries.len() {
                    CoordStep::Probe(self.confirmed)
                } else {
                    CoordStep::Attach
                }
            },
        }
    }

    /// The recorded endpoints.
    pub fn entries(&self) -> (r: &Vec<Vec<u8>>)
        ensures
            views(r@) == self.view().entries,
    {
        &self.entries
    }

    /// Takes in what the probe of the endpoint the last step named came to.
    pub fn record_probe(&mut self, reply: &ProbeReply)
        requires
            old(self).wf(),
            step_of(old(self).view()) is Probe,
        ensures
            final(self).wf(),
            final(self).view() == after_probe(old(self).view(), probe_alive(*reply)),
    {
        let alive = is_alive(reply);
        let n = self.entries.len();
        assert(views(self.entries@).len() == n);
        if alive {
            self.confirmed = self.confirmed + 1;
        } else {
            self.phase = CoordPhase::Stale;
        }
    }
}

/// Without a record the process starts its own listeners. With one, it
/// attaches (and so binds nothing) exactly when every recorded endpoint
/// answers its probe, and otherwise starts afresh.
pub proof fn lemma_coordination(record: Option<Seq<u8>>, answers: Seq<bool>)
    requires
        answers.len() == initial(record).entries.len(),
    ensures
        record is None ==> step_of(settle(initial(record), answers)) == CoordStep::StartListening,
        record is Some ==> (step_of(settle(initial(record), answers)) == CoordStep::Attach
            <==> forall|i: int| 0 <= i < answers.len() ==> answers[i]),
        step_of(settle(initial(record), answers)) != CoordStep::Attach ==> step_of(
            settle(initial(record), answers),
        ) == CoordStep::StartListening,
{
    lemma_settle(initial(record), answers);
}

proof fn lemma_settle(v: CoordView, answers: Seq<bool>)
    requires
        answers.len() == v.entries.len(),
        v.confirmed <= v.entries.len(),
    ensures
        v.phase == CoordPhase::Stale ==> step_of(settle(v, answers)) == CoordStep::StartListening,
        v.phase == CoordPhase::Probing ==> (step_of(settle(v, answers)) == CoordStep::Attach
            <==> forall|i: int| v.confirmed <= i < answers.len() ==> answers[i]),
        step_of(settle(v, answers)) is Attach || step_of(settle(v, answers)) is StartListening,
    decreases v.entries.len() - v.confirmed,
{
    if v.phase == CoordPhase::Probing && v.confirmed < v.entries.len() {
        let w = after_probe(v, answers[v.confirmed as int]);
        if !answers[v.confirmed as int] {
            assert(!(forall|i: int| v.confirmed <= i < answers.len() ==> answers[i]));
        } else {
            lemma_settle(w, answers);
            if step_of(settle(v, answers)) == CoordStep::Attach {
                assert forall|i: int| v.confirmed <= i < answers.len() implies answers[i] by {
                    if i > v.confirmed {
                        assert(w.confirmed <= i);
                    }
                }
            }
        }
    }
}

} // verus!
