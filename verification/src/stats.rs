//! Outcomes of submissions and the counters kept of them.

use vstd::prelude::*;

verus! {

/// The status with which the job source accepts a share.
pub const ACCEPTED_STATUS: u16 = 201;

/// What became of one submission.
#[derive(Debug)]
pub enum SubmitOutcome {
    /// The job source took the share.
    Accepted,
    /// The job source refused the share, for the reason given.
    Rejected(String),
    /// The submission did not get an answer; the error is given.
    TransportFailed(String),
}

/// How many shares were accepted and how many rejected.
#[derive(Clone, Copy, Debug)]
pub struct Stats {
    pub accepted: i64,
    pub rejected: i64,
}

/// The outcome that a reply stands for: `Ok` holds the status and the body
/// of an answer, `Err` the error of a submission that got none.
pub open spec fn outcome_spec(reply: Result<(u16, String), String>) -> SubmitOutcome {
    match reply {
        Ok((status, body)) => if status == ACCEPTED_STATUS {
            SubmitOutcome::Accepted
        } else {
            SubmitOutcome::Rejected(body)
        },
        Err(error) => SubmitOutcome::TransportFailed(error),
    }
}

/// What an outcome adds to the count of accepted shares.
pub open spec fn accepted_gain(outcome: SubmitOutcome) -> int {
    if outcome is Accepted {
        1
    } else {
        0
    }
}

/// What an outcome adds to the count of rejected shares.
pub open spec fn rejected_gain(outcome: SubmitOutcome) -> int {
    if outcome is Rejected {
        1
    } else {
        0
    }
}

/// The number of accepted shares among `outcomes`.
pub open spec fn accepted_count(outcomes: Seq<SubmitOutcome>) -> int
    decreases outcomes.len(),
{
    if outcomes.len() == 0 {
        0
    } else {
        accepted_count(outcomes.drop_last()) + accepted_gain(outcomes.last())
    }
}

/// The number of rejected shares among `outcomes`.
pub open spec fn rejected_count(outcomes: Seq<SubmitOutcome>) -> int
    decreases outcomes.len(),
{
    if outcomes.len() == 0 {
        0
    } else {
        rejected_count(outcomes.drop_last()) + rejected_gain(outcomes.last())
    }
}

/// The counters after `outcomes` were recorded one after the other,
/// starting from `(accepted, rejected)`.
pub open spec fn counters_after(start: (int, int), outcomes: Seq<SubmitOutcome>) -> (int, int)
    decreases outcomes.len(),
{
    if outcomes.len() == 0 {
        start
    } else {
        let before = counters_after(start, outcomes.drop_last());
        (before.0 + accepted_gain(outcomes.last()), before.1 + rejected_gain(outcomes.last()))
    }
}

impl Default for Stats {
    fn default() -> (stats: Stats)
        ensures
            stats.accepted == 0,
            stats.rejected == 0,
    {
        Stats { accepted: 0, rejected: 0 }
    }
}

impl Stats {
    /// The two counters as numbers.
    pub open spec fn counters(self) -> (int, int) {
        (self.accepted as int, self.rejected as int)
    }

    /// Counts one outcome: an accepted share, a rejected share, or, for a
    /// submission that failed on the way, nothing.
    pub fn record(&mut self, outcome: &SubmitOutcome)
        requires
            *outcome is Accepted ==> old(self).accepted < i64::MAX,
            *outcome is Rejected ==> old(self).rejected < i64::MAX,
        ensures
            final(self).accepted == old(self).accepted + accepted_gain(*outcome),
            final(self).rejected == old(self).rejected + rejected_gain(*outcome),
            final(self).accepted >= old(self).accepted,
            final(self).rejected >= old(self).rejected,
            final(self).counters() == counters_after(old(self).counters(), seq![*outcome]),
    {
        proof {
            assert(seq![*outcome].drop_last() =~= Seq::<SubmitOutcome>::empty());
            assert(counters_after(old(self).counters(), Seq::<SubmitOutcome>::empty()) == old(
                self,
            ).counters());
        }
        match outcome {
            SubmitOutcome::Accepted => {
                self.accepted = self.accepted + 1;
            },
            SubmitOutcome::Rejected(_) => {
                self.rejected = self.rejected + 1;
            },
            SubmitOutcome::TransportFailed(_) => {},
        }
    }
}

/// Reads a reply: status 201 is an accepted share, any other status a
/// rejected one with the body as the reason, and an error a submission that
/// failed on the way.
pub fn outcome_of(reply: Result<(u16, String), String>) -> (outcome: SubmitOutcome)
    ensures
        outcome == outcome_spec(reply),
{
    match reply {
        Ok((status, body)) => {
            if status == ACCEPTED_STATUS {
                SubmitOutcome::Accepted
            } else {
                SubmitOutcome::Rejected(body)
            }
        },
        Err(error) => SubmitOutcome::TransportFailed(error),
    }
}

/// Recording outcomes one after the other adds to each counter the number
/// of outcomes of its kind; submissions that failed on the way add nothing.
pub proof fn lemma_counters_total(start: (int, int), outcomes: Seq<SubmitOutcome>)
    ensures
        counters_after(start, outcomes) == (
            start.0 + accepted_count(outcomes),
            start.1 + rejected_count(outcomes),
        ),
    decreases outcomes.len(),
{
    if outcomes.len() > 0 {
        lemma_counters_total(start, outcomes.drop_last());
    }
}

/// Recording a run of outcomes in two parts is recording the whole run.
pub proof fn lemma_counters_split(
    start: (int, int),
    earlier: Seq<SubmitOutcome>,
    later: Seq<SubmitOutcome>,
)
    ensures
        counters_after(start, earlier + later) == counters_after(
            counters_after(start, earlier),
            later,
        ),
    decreases later.len(),
{
    if later.len() == 0 {
        assert(earlier + later =~= earlier);
    } else {
        assert((earlier + later).drop_last() =~= earlier + later.drop_last());
        assert((earlier + later).last() == later.last());
        lemma_counters_split(start, earlier, later.drop_last());
    }
}

/// What one reply adds to the counters: status 201 one accepted share, any
/// other status one rejected share, a submission that failed on the way
/// nothing.
pub proof fn lemma_reply_counts(start: (int, int), reply: Result<(u16, String), String>)
    ensures
        reply is Ok && reply.unwrap().0 == ACCEPTED_STATUS ==> counters_after(
            start,
            seq![outcome_spec(reply)],
        ) == (start.0 + 1, start.1),
        reply is Ok && reply.unwrap().0 != ACCEPTED_STATUS ==> counters_after(
            start,
            seq![outcome_spec(reply)],
        ) == (start.0, start.1 + 1),
        reply is Err ==> counters_after(start, seq![outcome_spec(reply)]) == start,
{
    let run = seq![outcome_spec(reply)];
    assert(run.drop_last() =~= Seq::<SubmitOutcome>::empty());
    assert(counters_after(start, run.drop_last()) == start);
}

/// Recording one more outcome after a run is one step on from the counters
/// that the run left: this is how `Stats::record`, called once for each
/// submission, adds up to `counters_after` of the whole run.
pub proof fn lemma_counters_step(
    start: (int, int),
    outcomes: Seq<SubmitOutcome>,
    next: SubmitOutcome,
)
    ensures
        counters_after(start, outcomes.push(next)) == counters_after(
            counters_after(start, outcomes),
            seq![next],
        ),
{
    assert(outcomes.push(next) =~= outcomes + seq![next]);
    lemma_counters_split(start, outcomes, seq![next]);
}

/// The counters do not depend on the order in which the outcomes came in:
/// two runs that hold the same outcomes, each as often, leave the same
/// counters.
pub proof fn lemma_counters_order(
    start: (int, int),
    one: Seq<SubmitOutcome>,
    other: Seq<SubmitOutcome>,
)
    requires
        one.to_multiset() == other.to_multiset(),
    ensures
        counters_after(start, one) == counters_after(start, other),
    decreases one.len(),
{
    broadcast use vstd::seq_lib::group_to_multiset_ensures;

    if one.len() == 0 {
        assert(one.to_multiset().len() == one.len());
        assert(other.to_multiset().len() == other.len());
        assert(other =~= one);
    } else {
        let last = one.last();
        assert(one =~= one.drop_last().push(last));
        assert(one.to_multiset().count(last) > 0);
        assert(other.contains(last));
        let i = choose|i: int| 0 <= i < other.len() && other[i] == last;
        let rest = other.remove(i);
        assert(rest.to_multiset() =~= other.to_multiset().remove(last));
        assert(one.drop_last().to_multiset() =~= one.to_multiset().remove(last));
        lemma_counters_order(start, one.drop_last(), rest);
        let head = other.take(i);
        let tail = other.skip(i + 1);
        assert(rest =~= head + tail);
        assert(other =~= head.push(last) + tail);
        lemma_counters_split(start, head, tail);
        lemma_counters_split(start, head.push(last), tail);
        assert(head.push(last).drop_last() =~= head);
        lemma_counters_total(counters_after(start, head), tail);
        lemma_counters_total(counters_after(start, head.push(last)), tail);
    }
}

} // verus!
