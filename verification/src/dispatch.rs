//! Sending one batch of messages: one at a time, in order, and no further
//! once a message fails. The caller sends; this module says what to send
//! next and keeps count.

use crate::message::{notices, notices_for, Mode, Notice, NoticeView};
use crate::record::BalanceRecord;
use vstd::prelude::*;

verus! {

/// A batch was given up because a message did not go out.
#[derive(Clone, Copy, Debug, PartialEq, Eq, Structural)]
pub struct SendError {
    /// The place in the batch of the message that failed, from zero.
    pub position: usize,
}

/// How far a batch has come.
pub struct Progress {
    /// The messages of the batch, in the order in which they leave.
    pub notices: Seq<NoticeView>,
    /// How many of them were handed to the chat so far.
    pub attempted: nat,
    /// The last one handed over did not go out.
    pub failed: bool,
}

impl Progress {
    /// A batch of which nothing was sent yet.
    pub open spec fn start(notices: Seq<NoticeView>) -> Progress {
        Progress { notices, attempted: 0, failed: false }
    }

    /// No more was attempted than the batch holds, and a failure is the
    /// failure of a message that was attempted.
    pub open spec fn wf(self) -> bool {
        &&& self.attempted <= self.notices.len()
        &&& self.failed ==> self.attempted >= 1
    }

    /// The message to send now: the next one in order, as long as none has
    /// failed and some are left.
    pub open spec fn pending(self) -> Option<NoticeView> {
        if !self.failed && self.attempted < self.notices.len() {
            Some(self.notices[self.attempted as int])
        } else {
            None
        }
    }

    /// The batch after the pending message went out (`delivered`) or did
    /// not. With nothing pending, nothing changes.
    pub open spec fn record(self, delivered: bool) -> Progress {
        if self.pending() is Some {
            Progress { attempted: self.attempted + 1, failed: !delivered, ..self }
        } else {
            self
        }
    }

    /// How the batch ended, once nothing is pending: well, or with the place
    /// of the message that failed.
    pub open spec fn outcome(self) -> Option<Result<(), SendError>> {
        if self.failed {
            Some(Err(SendError { position: (self.attempted - 1) as usize }))
        } else if self.attempted >= self.notices.len() {
            Some(Ok(()))
        } else {
            None
        }
    }

    /// The batch after the caller reported `outcomes`, one for each message
    /// it was asked to send, in that order. Reports beyond the end of the
    /// batch change nothing.
    pub open spec fn run(self, outcomes: Seq<bool>) -> Progress
        decreases outcomes.len(),
    {
        if outcomes.len() == 0 {
            self
        } else {
            self.record(outcomes[0]).run(outcomes.skip(1))
        }
    }

    /// The messages that the caller was asked to send while it reported
    /// `outcomes`, and after the last of them.
    pub open spec fn issued(self, outcomes: Seq<bool>) -> Seq<NoticeView>
        decreases outcomes.len(),
    {
        match self.pending() {
            None => Seq::empty(),
            Some(notice) => if outcomes.len() == 0 {
                seq![notice]
            } else {
                seq![notice] + self.record(outcomes[0]).issued(outcomes.skip(1))
            },
        }
    }
}

/// One batch of messages on its way out.
pub struct Dispatch {
    notices: Vec<Notice>,
    attempted: usize,
    failed: bool,
}

impl View for Dispatch {
    type V = Progress;

    closed spec fn view(&self) -> Progress {
        Progress {
            notices: self.notices.deep_view(),
            attempted: self.attempted as nat,
            failed: self.failed,
        }
    }
}

impl Dispatch {
    #[verifier::type_invariant]
    spec fn well_formed(&self) -> bool {
        self@.wf()
    }

    /// A batch of which nothing was sent yet.
    pub fn new(notices: Vec<Notice>) -> (dispatch: Dispatch)
        ensures
            dispatch@ == Progress::start(notices.deep_view()),
            dispatch@.wf(),
    {
        Dispatch { notices, attempted: 0, failed: false }
    }

    /// The message to send now, or `None` when the batch is over.
    pub fn pending(&self) -> (next: Option<&Notice>)
        ensures
            self@.wf(),
            match next {
                Some(notice) => self@.pending() == Some(notice@),
                None => self@.pending() is None,
            },
    {
        proof {
            use_type_invariant(self);
        }
        if !self.failed && self.attempted < self.notices.len() {
            Some(&self.notices[self.attempted])
        } else {
            None
        }
    }

    /// Takes note of how the pending message fared.
    pub fn record(&mut self, delivered: bool)
        ensures
            final(self)@ == old(self)@.record(delivered),
            final(self)@.wf(),
    {
        proof {
            use_type_invariant(&*self);
        }
        if !self.failed && self.attempted < self.notices.len() {
            self.attempted = self.attempted + 1;
            self.failed = !delivered;
        }
    }

    /// How the batch ended, or `None` while a message is pending.
    pub fn outcome(&self) -> (ended: Option<Result<(), SendError>>)
        ensures
            ended == self@.outcome(),
            ended is None <==> self@.pending() is Some,
    {
        proof {
            use_type_invariant(self);
        }
        if self.failed {
            Some(Err(SendError { position: self.attempted - 1 }))
        } else if self.attempted >= self.notices.len() {
            Some(Ok(()))
        } else {
            None
        }
    }

    /// How many messages were handed to the chat so far.
    pub fn attempted(&self) -> (count: usize)
        ensures
            count == self@.attempted,
    {
        self.attempted
    }
}

/// Sets out to notify the chat `chat_id` of `records`: the batch holds one
/// message for each record, in the order of `records`, and nothing of it
/// was sent yet.
pub fn notify(chat_id: i64, records: &Vec<BalanceRecord>, mode: &Mode) -> (dispatch: Dispatch)
    ensures
        dispatch@ == Progress::start(notices_for(chat_id, records.deep_view(), mode@)),
        dispatch@.wf(),
{
    Dispatch::new(notices(chat_id, records, mode))
}

/// While every message goes out, the batch leaves whole and in order:
/// after `k` good reports exactly the first `k` messages were sent and
/// message `k` is the one asked for next.
pub proof fn lemma_all_delivered(notices: Seq<NoticeView>, outcomes: Seq<bool>)
    requires
        outcomes.len() <= notices.len(),
        forall|i: int| 0 <= i < outcomes.len() ==> outcomes[i],
    ensures
        Progress::start(notices).run(outcomes) == (Progress {
            notices,
            attempted: outcomes.len(),
            failed: false,
        }),
        outcomes.len() < notices.len() ==> Progress::start(notices).issued(outcomes)
            == notices.take(outcomes.len() as int + 1),
        outcomes.len() == notices.len() ==> Progress::start(notices).issued(outcomes) == notices,
        outcomes.len() == notices.len() ==> Progress::start(notices).run(outcomes).outcome()
            == Some(Ok::<(), SendError>(())),
{
    lemma_run_from(Progress::start(notices), outcomes, outcomes.len() as int);
    assert(notices.subrange(0, outcomes.len() as int + 1) =~= notices.take(outcomes.len() as int + 1));
    assert(notices.subrange(0, notices.len() as int) =~= notices);
}

/// Once a message fails, none behind it is sent: where report `k` is the
/// first bad one, exactly the messages up to and including message `k` were
/// sent, whatever is reported afterwards, and the batch ends with an error
/// that names place `k`.
pub proof fn lemma_failure_stops(notices: Seq<NoticeView>, outcomes: Seq<bool>, k: int)
    requires
        0 <= k < notices.len(),
        k < outcomes.len(),
        notices.len() <= usize::MAX,
        forall|i: int| 0 <= i < k ==> outcomes[i],
        !outcomes[k],
    ensures
        Progress::start(notices).issued(outcomes) == notices.take(k + 1),
        Progress::start(notices).run(outcomes).pending() is None,
        Progress::start(notices).run(outcomes).outcome() == Some(
            Err::<(), SendError>(SendError { position: k as usize }),
        ),
{
    lemma_run_from(Progress::start(notices), outcomes, k);
    assert(notices.subrange(0, k + 1) =~= notices.take(k + 1));
}

/// The general step behind the two laws above, from any point of a batch
/// at which nothing has failed: `good` reports go well, and then either the
/// reports end or the next one is bad.
proof fn lemma_run_from(p: Progress, outcomes: Seq<bool>, good: int)
    requires
        p.wf(),
        !p.failed,
        0 <= good <= outcomes.len(),
        p.attempted + good <= p.notices.len(),
        forall|i: int| 0 <= i < good ==> outcomes[i],
        good == outcomes.len() || (!outcomes[good] && p.attempted + good < p.notices.len()),
    ensures
        good == outcomes.len() ==> p.run(outcomes) == (Progress {
            attempted: (p.attempted + good) as nat,
            ..p
        }),
        good < outcomes.len() ==> p.run(outcomes) == (Progress {
            attempted: (p.attempted + good + 1) as nat,
            failed: true,
            ..p
        }),
        p.attempted + good < p.notices.len() ==> p.issued(outcomes) == p.notices.subrange(
            p.attempted as int,
            p.attempted + good + 1,
        ),
        p.attempted + good == p.notices.len() ==> p.issued(outcomes) == p.notices.subrange(
            p.attempted as int,
            p.notices.len() as int,
        ),
    decreases outcomes.len(),
{
    let n = p.notices;
    let from = p.attempted as int;
    if p.pending() is None {
        assert(from == n.len());
        assert(good == 0);
        assert(p.issued(outcomes) =~= n.subrange(from, n.len() as int));
        lemma_run_idle(p, outcomes);
    } else if outcomes.len() == 0 {
        assert(p.issued(outcomes) =~= n.subrange(from, from + 1));
    } else if good == 0 {
        let q = p.record(outcomes[0]);
        lemma_run_idle(q, outcomes.skip(1));
        assert(q.pending() is None);
        assert(q.issued(outcomes.skip(1)) =~= Seq::<NoticeView>::empty());
        assert(p.issued(outcomes) =~= n.subrange(from, from + 1));
    } else {
        let q = p.record(outcomes[0]);
        let rest = outcomes.skip(1);
        assert forall|i: int| 0 <= i < good - 1 implies rest[i] by {
            assert(rest[i] == outcomes[i + 1]);
        }
        if good < outcomes.len() {
            assert(rest[good - 1] == outcomes[good]);
        }
        lemma_run_from(q, rest, good - 1);
        if from + good < n.len() {
            assert(p.issued(outcomes) =~= n.subrange(from, from + good + 1));
        } else {
            assert(p.issued(outcomes) =~= n.subrange(from, n.len() as int));
        }
    }
}

/// A batch with nothing pending stays as it is, whatever is reported.
proof fn lemma_run_idle(p: Progress, outcomes: Seq<bool>)
    requires
        p.pending() is None,
    ensures
        p.run(outcomes) == p,
    decreases outcomes.len(),
{
    if outcomes.len() > 0 {
        lemma_run_idle(p, outcomes.skip(1));
    }
}

} // verus!
