//! The connector's decisions: which candidate endpoint to try next. The
//! candidates are tried strictly in order; one that did not resolve, or whose
//! connection failed, is skipped and never retried.

use vstd::prelude::*;
use crate::endpoint::ConnectionType;

verus! {

/// The first index from `from` on whose candidate resolved, or the number of
/// candidates when none did.
pub open spec fn first_resolvable(c: Seq<Option<ConnectionType>>, from: nat) -> nat
    decreases c.len() - from,
{
    if from >= c.len() {
        c.len()
    } else if c[from as int] is Some {
        from
    } else {
        first_resolvable(c, from + 1)
    }
}

/// The indices that a connect attempt from `from` on tries, in order, where
/// `accepts[i]` says whether candidate `i` would take the connection.
pub open spec fn attempts(c: Seq<Option<ConnectionType>>, accepts: Seq<bool>, from: nat) -> Seq<
    nat,
>
    decreases c.len() - from,
{
    if from >= c.len() {
        seq![]
    } else if c[from as int] is None {
        attempts(c, accepts, from + 1)
    } else if accepts[from as int] {
        seq![from]
    } else {
        seq![from] + attempts(c, accepts, from + 1)
    }
}

/// Walks an ordered list of resolved candidates.
pub struct Connector {
    candidates: Vec<Option<ConnectionType>>,
    next: usize,
}

impl Connector {
    /// The candidates, in the order they are tried.
    pub closed spec fn candidates_spec(&self) -> Seq<Option<ConnectionType>> {
        self.candidates@
    }

    /// The index from which the next attempt looks.
    pub closed spec fn next_spec(&self) -> nat {
        self.next as nat
    }

    pub closed spec fn wf(&self) -> bool {
        self.next <= self.candidates@.len()
    }

    /// A connector that starts at the first candidate.
    pub fn new(candidates: Vec<Option<ConnectionType>>) -> (r: Connector)
        ensures
            r.wf(),
            r.candidates_spec() == candidates@,
            r.next_spec() == 0,
    {
        Connector { candidates, next: 0 }
    }

    /// The next candidate to try: the first that resolved at or after the
    /// current position, or `None` when all candidates are exhausted.
    pub fn next_attempt(&mut self) -> (r: Option<usize>)
        requires
            old(self).wf(),
        ensures
            final(self).wf(),
            final(self).candidates_spec() == old(self).candidates_spec(),
            ({
                let i = first_resolvable(old(self).candidates_spec(), old(self).next_spec());
                if i < old(self).candidates_spec().len() {
                    r == Some(i as usize) && final(self).next_spec() == i + 1
                } else {
                    r is None && final(self).next_spec() == old(self).candidates_spec().len()
                }
            }),
    {
        while self.next < self.candidates.len()
            invariant
                self.next <= self.candidates@.len(),
                self.candidates@ == old(self).candidates@,
                first_resolvable(self.candidates@, self.next as nat) == first_resolvable(
                    old(self).candidates@,
                    old(self).next as nat,
                ),
            decreases self.candidates@.len() - self.next,
        {
            let i = self.next;
            self.next = i + 1;
            if self.candidates[i].is_some() {
                return Some(i);
            }
        }
        None
    }

    /// The resolved endpoint of candidate `i`.
    pub fn target(&self, i: usize) -> (r: &ConnectionType)
        requires
            i < self.candidates_spec().len(),
            self.candidates_spec()[i as int] is Some,
        ensures
            Some(*r) == self.candidates_spec()[i as int],
    {
        self.candidates[i].as_ref().unwrap()
    }
}

/// A connect attempt over candidates tries only resolved ones, in order, each
/// the next resolved one after the last that failed, and ends with the first
/// of them that takes the connection: nothing after it is tried.
pub proof fn lemma_fallback_stops_at_first_live(
    c: Seq<Option<ConnectionType>>,
    accepts: Seq<bool>,
    from: nat,
    k: nat,
)
    requires
        accepts.len() == c.len(),
        from <= k < c.len(),
        c[k as int] is Some,
        accepts[k as int],
        forall|j: int| from <= j < k && c[j] is Some ==> !accepts[j],
    ensures
        attempts(c, accepts, from).len() > 0,
        attempts(c, accepts, from).last() == k,
        attempts(c, accepts, from)[0] == first_resolvable(c, from),
        forall|e: int|
            0 <= e < attempts(c, accepts, from).len() ==> from <= #[trigger] attempts(
                c,
                accepts,
                from,
            )[e] <= k && c[attempts(c, accepts, from)[e] as int] is Some,
        forall|e: int|
            0 <= e < attempts(c, accepts, from).len() - 1 ==> #[trigger] attempts(
                c,
                accepts,
                from,
            )[e + 1] == first_resolvable(c, attempts(c, accepts, from)[e] + 1),
    decreases k - from,
{
    if from < k {
        lemma_fallback_stops_at_first_live(c, accepts, from + 1, k);
        let rest = attempts(c, accepts, from + 1);
        if c[from as int] is Some {
            let a = seq![from] + rest;
            assert(a.last() == rest.last());
            assert forall|e: int| 0 <= e < a.len() implies from <= #[trigger] a[e] <= k
                && c[a[e] as int] is Some by {
                if e > 0 {
                    assert(a[e] == rest[e - 1]);
                }
            }
            assert forall|e: int| 0 <= e < a.len() - 1 implies #[trigger] a[e + 1]
                == first_resolvable(c, a[e] + 1) by {
                if e > 0 {
                    assert(a[e] == rest[e - 1]);
                    assert(a[e + 1] == rest[e]);
                    let e1 = e - 1;
                    assert(rest[e1 + 1] == first_resolvable(c, rest[e1] + 1));
                } else {
                    assert(a[0] == from);
                    assert(a[1] == rest[0]);
                }
            }
        }
    }
}

} // verus!
