//! The rounds of the scheduler: requests are admitted in the order in which they came, and every
//! round decodes before it prefills.

use vstd::prelude::*;

verus! {

/// Where a round is.
#[derive(Clone, Copy, Debug, PartialEq, Eq, Structural)]
pub enum Stage {
    /// Requests that have come are taken in.
    Receive,
    /// Requests that wait are admitted while there is room.
    Admit,
    /// There is nothing to do but to wait for a request.
    Wait,
    Decode,
    Prefill,
    /// Requests that are over give up their slots.
    Reap,
    /// Nobody can send requests any more.
    Over,
}

/// What is to be done next.
#[derive(Debug)]
pub enum Task<J> {
    /// See whether a request has come.
    Receive,
    Admit(J),
    /// Wait for a request, for a while.
    Wait,
    Decode,
    Prefill,
    Reap,
    Stop,
}

/// The requests that wait, in the order in which they came, and where the round is.
#[derive(Debug)]
pub struct Rounds<J> {
    pub waiting: Vec<J>,
    pub stage: Stage,
}

impl<J> Rounds<J> {
    /// What is to be done next, where there is room for a request, or is not, and some are active,
    /// or none is.
    pub open spec fn task(self, room: bool, busy: bool) -> Task<J> {
        match self.stage {
            Stage::Receive => Task::Receive,
            Stage::Admit => if room && self.waiting@.len() > 0 {
                Task::Admit(self.waiting@[0])
            } else if busy {
                Task::Decode
            } else {
                Task::Wait
            },
            Stage::Wait => Task::Wait,
            Stage::Decode => Task::Decode,
            Stage::Prefill => Task::Prefill,
            Stage::Reap => Task::Reap,
            Stage::Over => Task::Stop,
        }
    }

    /// A scheduler that has seen no request.
    pub fn new() -> (r: Self)
        ensures
            r.waiting@.len() == 0,
            r.stage == Stage::Receive,
    {
        Rounds { waiting: Vec::new(), stage: Stage::Receive }
    }

    /// What to do next. A request that is to be admitted waits no longer; once none is, the round
    /// goes on.
    pub fn next(&mut self, room: bool, busy: bool) -> (r: Task<J>)
        ensures
            r == old(self).task(room, busy),
            final(self).waiting@ == (if r is Admit {
                old(self).waiting@.skip(1)
            } else {
                old(self).waiting@
            }),
            final(self).stage == (match (old(self).stage, r) {
                (Stage::Admit, Task::Decode) => Stage::Decode,
                (Stage::Admit, Task::Wait) => Stage::Wait,
                (s, _) => s,
            }),
            follows(
                *old(self),
                *final(self),
                match r {
                    Task::Admit(j) => Some(j),
                    _ => None,
                },
                None,
            ),
    {
        let ghost was = *self;
        proof {
            assert(was.task(room, busy) == was.task(room, busy));
        }
        match self.stage {
            Stage::Receive => Task::Receive,
            Stage::Admit => {
                if room && self.waiting.len() > 0 {
                    let ghost all = self.waiting@;
                    let first = self.waiting.remove(0);
                    assert(self.waiting@ =~= all.skip(1));
                    Task::Admit(first)
                } else if busy {
                    self.stage = Stage::Decode;
                    Task::Decode
                } else {
                    self.stage = Stage::Wait;
                    Task::Wait
                }
            },
            Stage::Wait => Task::Wait,
            Stage::Decode => Task::Decode,
            Stage::Prefill => Task::Prefill,
            Stage::Reap => Task::Reap,
            Stage::Over => Task::Stop,
        }
    }

    /// A request has come: it waits behind the others. One that was waited for begins a new round.
    pub fn came(&mut self, job: J)
        ensures
            final(self).waiting@ == old(self).waiting@.push(job),
            final(self).stage == (if old(self).stage is Wait {
                Stage::Receive
            } else {
                old(self).stage
            }),
            follows(*old(self), *final(self), None, Some(job)),
    {
        self.waiting.push(job);
        if let Stage::Wait = self.stage {
            self.stage = Stage::Receive;
        }
    }

    /// No request has come: those that wait are admitted, or a new round begins.
    pub fn none_came(&mut self)
        ensures
            final(self).waiting@ == old(self).waiting@,
            final(self).stage == (match old(self).stage {
                Stage::Receive => Stage::Admit,
                Stage::Wait => Stage::Receive,
                s => s,
            }),
            follows(*old(self), *final(self), None, None),
    {
        self.stage = match self.stage {
            Stage::Receive => Stage::Admit,
            Stage::Wait => Stage::Receive,
            s => s,
        };
    }

    /// Nobody can send requests any more.
    pub fn gone(&mut self)
        ensures
            final(self).waiting@ == old(self).waiting@,
            final(self).stage == Stage::Over,
            follows(*old(self), *final(self), None, None),
    {
        self.stage = Stage::Over;
    }

    /// What was to be done is done: decoding comes before prefilling, and both before slots are
    /// given up.
    pub fn done(&mut self)
        ensures
            final(self).waiting@ == old(self).waiting@,
            final(self).stage == (match old(self).stage {
                Stage::Decode => Stage::Prefill,
                Stage::Prefill => Stage::Reap,
                Stage::Reap => Stage::Receive,
                s => s,
            }),
            follows(*old(self), *final(self), None, None),
    {
        self.stage = match self.stage {
            Stage::Decode => Stage::Prefill,
            Stage::Prefill => Stage::Reap,
            Stage::Reap => Stage::Receive,
            s => s,
        };
    }
}

/// Whether one state follows another by one of the operations, and which request was admitted or
/// has come.
pub open spec fn follows<J>(
    a: Rounds<J>,
    b: Rounds<J>,
    admitted: Option<J>,
    arrived: Option<J>,
) -> bool {
    match (admitted, arrived) {
        (Some(j), None) => exists|room: bool, busy: bool| #[trigger]
            a.task(room, busy) == Task::Admit(j) && b.waiting@ == a.waiting@.skip(1) && b.stage
                == a.stage,
        (None, Some(j)) => b.waiting@ == a.waiting@.push(j) && b.stage == (if a.stage is Wait {
            Stage::Receive
        } else {
            a.stage
        }),
        (None, None) => b.waiting@ == a.waiting@ && match (a.stage, b.stage) {
            (Stage::Receive, Stage::Admit) => true,
            (Stage::Admit, Stage::Decode) => true,
            (Stage::Admit, Stage::Wait) => true,
            (Stage::Wait, Stage::Receive) => true,
            (Stage::Decode, Stage::Prefill) => true,
            (Stage::Prefill, Stage::Reap) => true,
            (Stage::Reap, Stage::Receive) => true,
            (_, Stage::Over) => true,
            (s, t) => s == t,
        },
        _ => false,
    }
}

/// One more request, if there is one.
pub open spec fn with_request<J>(s: Seq<J>, j: Option<J>) -> Seq<J> {
    match j {
        Some(x) => s.push(x),
        None => s,
    }
}

/// First come, first served: those that were admitted and those that wait are those that came, in
/// that order, whatever happens next.
pub proof fn lemma_first_come<J>(
    a: Rounds<J>,
    b: Rounds<J>,
    admitted: Option<J>,
    arrived: Option<J>,
    served: Seq<J>,
    came: Seq<J>,
)
    requires
        served + a.waiting@ == came,
        follows(a, b, admitted, arrived),
    ensures
        with_request(served, admitted) + b.waiting@ == with_request(came, arrived),
{
    let left = with_request(served, admitted) + b.waiting@;
    match admitted {
        Some(j) => {
            assert(a.waiting@.len() > 0 && a.waiting@[0] == j);
            assert(left =~= served + a.waiting@);
        },
        None => {
            match arrived {
                Some(j) => {
                    assert(left =~= (served + a.waiting@).push(j));
                },
                None => {},
            }
        },
    }
}

/// Decoding comes first: the active requests are prefilled only once they were decoded in the same
/// round, and no request is admitted in between.
pub proof fn lemma_decode_first<J>(
    a: Rounds<J>,
    b: Rounds<J>,
    admitted: Option<J>,
    arrived: Option<J>,
)
    requires
        follows(a, b, admitted, arrived),
        b.stage == Stage::Prefill,
        a.stage != Stage::Prefill,
    ensures
        a.stage == Stage::Decode,
        admitted is None,
        forall|room: bool, busy: bool| #[trigger] a.task(room, busy) is Decode,
{
}

} // verus!
