//! The loop that generates a text: what to decode next, what to read back, and when to stop.

use vstd::prelude::*;

use crate::gemma::model::ModelError;
use crate::gemma::session::ends_text;

verus! {

/// Where a generation is.
#[derive(Clone, Copy, Debug, PartialEq, Eq, Structural)]
pub enum GenPhase {
    /// A decode step is due.
    Decode,
    /// The token of the step before is to be read.
    Read,
    /// The token of the last step is to be read.
    Last,
    Done,
}

/// What to do next.
#[derive(Clone, Copy, Debug, PartialEq, Eq, Structural)]
pub enum GenAction {
    /// Decode `token`, reading token buffer `src`.
    Decode { token: u32, src: usize },
    /// Wait until at most `inflight` command buffers are left, then read a token buffer.
    Read { slot: usize, inflight: usize },
    Done,
}

/// A generation of at most `n_new` tokens. In a pipe every step leaves its token on the device for
/// the next one, and it is read one step later.
#[derive(Debug)]
pub struct Generation {
    pub piped: bool,
    pub n_new: usize,
    pub step: usize,
    pub tok: u32,
    pub out: Vec<u32>,
    pub phase: GenPhase,
}

impl Generation {
    /// Whether the generation is consistent: as many tokens as steps were read, none of them but
    /// the last ends the text, and the last does only where the generation is over.
    pub open spec fn wf(self) -> bool {
        &&& self.step <= self.n_new
        &&& self.out@.len() <= self.n_new
        &&& forall|i: int| 0 <= i < self.out@.len() - 1 ==> !ends_text(#[trigger] self.out@[i])
        &&& !(self.phase is Done) && self.out@.len() > 0 ==> !ends_text(self.out@.last())
        &&& match self.phase {
            GenPhase::Decode => self.step < self.n_new && self.out@.len() == self.behind(),
            GenPhase::Read => self.piped && 0 < self.step < self.n_new && self.out@.len() + 1
                == self.step,
            GenPhase::Last => self.piped && self.step == self.n_new && self.out@.len() + 1
                == self.n_new,
            GenPhase::Done => self.out@.len() == self.n_new || (self.out@.len() > 0 && ends_text(
                self.out@.last(),
            )),
        }
    }

    /// How many tokens are known before a decode step.
    pub open spec fn behind(self) -> int {
        if !self.piped {
            self.step as int
        } else if self.step == 0 {
            0
        } else {
            self.step - 1
        }
    }

    /// Starts a generation behind the last token of a prompt.
    pub fn new(last: u32, n_new: usize, piped: bool) -> (r: Generation)
        ensures
            r.wf(),
            r.out@.len() == 0,
            r.tok == last,
            r.n_new == n_new,
            r.piped == piped,
            r.step == 0,
            r.phase == (if n_new == 0 {
                GenPhase::Done
            } else {
                GenPhase::Decode
            }),
    {
        Generation {
            piped,
            n_new,
            step: 0,
            tok: last,
            out: Vec::new(),
            phase: if n_new == 0 {
                GenPhase::Done
            } else {
                GenPhase::Decode
            },
        }
    }

    /// What is to be done next.
    pub open spec fn acted(self) -> GenAction {
        match self.phase {
            GenPhase::Decode => GenAction::Decode {
                token: self.tok,
                src: if self.piped {
                    (self.step % 2) as usize
                } else {
                    0
                },
            },
            GenPhase::Read => GenAction::Read { slot: (self.step % 2) as usize, inflight: 1 },
            GenPhase::Last => GenAction::Read { slot: (self.n_new % 2) as usize, inflight: 0 },
            GenPhase::Done => GenAction::Done,
        }
    }

    /// What to do next.
    pub fn action(&self) -> (r: GenAction)
        ensures
            r == self.acted(),
    {
        match self.phase {
            GenPhase::Decode => GenAction::Decode {
                token: self.tok,
                src: if self.piped {
                    self.step % 2
                } else {
                    0
                },
            },
            GenPhase::Read => GenAction::Read { slot: self.step % 2, inflight: 1 },
            GenPhase::Last => GenAction::Read { slot: self.n_new % 2, inflight: 0 },
            GenPhase::Done => GenAction::Done,
        }
    }

    /// Where a generation goes on from after `step` steps.
    pub open spec fn next_phase(self, step: usize) -> GenPhase {
        if step < self.n_new {
            GenPhase::Decode
        } else if self.piped {
            GenPhase::Last
        } else {
            GenPhase::Done
        }
    }

    /// A decode step of a pipe was encoded.
    pub fn decoded(&mut self)
        requires
            old(self).wf(),
            old(self).piped,
            old(self).phase is Decode,
        ensures
            final(self).wf(),
            final(self).out@ == old(self).out@,
            final(self).tok == old(self).tok,
            final(self).n_new == old(self).n_new,
            final(self).piped == old(self).piped,
            if old(self).step > 0 {
                final(self).phase is Read && final(self).step == old(self).step
            } else {
                &&& final(self).step == 1
                &&& final(self).phase == old(self).next_phase(1)
            },
    {
        if self.step > 0 {
            self.phase = GenPhase::Read;
        } else {
            self.step = 1;
            self.phase = if 1 < self.n_new {
                GenPhase::Decode
            } else {
                GenPhase::Last
            };
        }
    }

    /// A token came back: from a decode step, or read in a pipe. It is put behind the text; a
    /// token that ends the text is the last.
    pub fn take(&mut self, next: u32)
        requires
            old(self).wf(),
            old(self).phase is Read || old(self).phase is Last
                || (old(self).phase is Decode && !old(
                self,
            ).piped),
        ensures
            final(self).wf(),
            final(self).out@ == old(self).out@.push(next),
            final(self).n_new == old(self).n_new,
            final(self).piped == old(self).piped,
            if old(self).phase is Last {
                &&& final(self).phase is Done
                &&& final(self).tok == old(self).tok
                &&& final(self).step == old(self).step
            } else if ends_text(next) {
                &&& final(self).phase is Done
                &&& final(self).tok == next
                &&& final(self).step == old(self).step
            } else {
                &&& final(self).tok == next
                &&& final(self).step == old(self).step + 1
                &&& final(self).phase == old(self).next_phase((old(self).step + 1) as usize)
            },
    {
        let ghost before = self.out@;
        self.out.push(next);
        assert forall|i: int| 0 <= i < self.out@.len() - 1 implies !ends_text(
            #[trigger] self.out@[i],
        ) by {
            assert(self.out@[i] == before[i]);
            if i == before.len() - 1 {
                assert(before.last() == before[i]);
            }
        }
        match self.phase {
            GenPhase::Last => {
                self.phase = GenPhase::Done;
            },
            _ => {
                self.tok = next;
                if ends_text(next) {
                    self.phase = GenPhase::Done;
                } else {
                    self.step = self.step + 1;
                    self.phase = if self.step < self.n_new {
                        GenPhase::Decode
                    } else if self.piped {
                        GenPhase::Last
                    } else {
                        GenPhase::Done
                    };
                }
            },
        }
    }

    /// How many actions a generation still takes at most.
    pub open spec fn left(self) -> nat {
        match self.phase {
            GenPhase::Decode => (2 * (self.n_new - self.step) + 2) as nat,
            GenPhase::Read => (2 * (self.n_new - self.step) + 1) as nat,
            GenPhase::Last => 1,
            GenPhase::Done => 0,
        }
    }
}

/// Begins a generation behind a prompt: the tokens to be prefilled are all but the last, which the
/// generation starts from. There is none behind an empty prompt.
pub fn begin(prompt: &Vec<u32>, n_new: usize, piped: bool) -> (r: Result<
    (Vec<u32>, Generation),
    ModelError,
>)
    ensures
        if prompt@.len() == 0 {
            r == Err::<(Vec<u32>, Generation), ModelError>(ModelError::EmptyPrompt)
        } else {
            r matches Ok((head, g)) && {
                &&& head@ == prompt@.drop_last()
                &&& g.wf()
                &&& g.tok == prompt@.last()
                &&& g.n_new == n_new
                &&& g.piped == piped
                &&& g.step == 0
                &&& g.out@.len() == 0
                &&& g.phase == (if n_new == 0 {
                    GenPhase::Done
                } else {
                    GenPhase::Decode
                })
            }
        },
{
    if prompt.len() == 0 {
        return Err(ModelError::EmptyPrompt);
    }
    let mut head: Vec<u32> = Vec::new();
    let mut i: usize = 0;
    while i < prompt.len() - 1
        invariant
            i < prompt@.len(),
            head@ == prompt@.take(i as int),
        decreases prompt@.len() - i,
    {
        head.push(prompt[i]);
        i += 1;
        assert(head@ =~= prompt@.take(i as int));
    }
    assert(head@ =~= prompt@.drop_last());
    Ok((head, Generation::new(prompt[prompt.len() - 1], n_new, piped)))
}

/// Every action brings a generation nearer to its end.
pub proof fn lemma_generation_ends(before: Generation, after: Generation)
    requires
        before.wf(),
        after.wf(),
        before.n_new == after.n_new,
        before.piped == after.piped,
        !(before.phase is Done),
        after.phase is Done || (before.phase is Decode && after.phase is Read && after.step
            == before.step) || (!(before.phase is Last) && after.step == before.step + 1
            && after.phase == before.next_phase(after.step)),
    ensures
        after.left() < before.left(),
{
}

/// The buffer into which a decode step of a pipe puts its token: the one that it does not read.
pub open spec fn written_by(step: int) -> int {
    1 - step % 2
}

/// In a pipe every decode step starts from the token of the step before, and every token is read
/// from the buffer of the step that made it, which the step encoded since leaves alone.
pub proof fn lemma_ping_pong(g: Generation)
    requires
        g.wf(),
        g.piped,
    ensures
        match g.acted() {
            GenAction::Decode { src, .. } => {
                &&& written_by(g.step as int) != src
                &&& g.step > 0 ==> src == written_by(g.step - 1)
            },
            GenAction::Read { slot, inflight } => {
                &&& slot == written_by(g.out@.len() as int)
                &&& inflight > 0 ==> slot != written_by(g.out@.len() as int + 1)
            },
            GenAction::Done => true,
        },
{
}

/// A text up to and with the first token that ends it.
pub open spec fn until_end(tokens: Seq<u32>) -> Seq<u32>
    decreases tokens.len(),
{
    if tokens.len() == 0 {
        tokens
    } else if ends_text(tokens[0]) {
        tokens.take(1)
    } else {
        tokens.take(1) + until_end(tokens.skip(1))
    }
}

proof fn lemma_until_end(out: Seq<u32>, more: Seq<u32>)
    requires
        forall|i: int| 0 <= i < out.len() - 1 ==> !ends_text(#[trigger] out[i]),
        more.len() == 0 || (out.len() > 0 && ends_text(out.last())),
    ensures
        until_end(out + more) == out,
    decreases out.len(),
{
    let all = out + more;
    if out.len() == 0 {
        assert(all =~= out);
    } else {
        assert(all[0] == out[0]);
        assert(all.take(1) =~= out.take(1));
        assert(all.skip(1) =~= out.skip(1) + more);
        if ends_text(out[0]) {
            assert(out.take(1) =~= out);
        } else {
            assert forall|i: int| 0 <= i < out.skip(1).len() - 1 implies !ends_text(
                #[trigger] out.skip(1)[i],
            ) by {
                assert(out.skip(1)[i] == out[i + 1]);
            }
            if out.len() > 1 {
                assert(out.skip(1).last() == out.last());
            }
            lemma_until_end(out.skip(1), more);
            assert(out.take(1) + out.skip(1) =~= out);
        }
    }
}

/// A generation that is over has given the first `n_new` of the tokens that the model makes, up to
/// and with the first that ends the text, in a pipe as without one.
pub proof fn lemma_generated(g: Generation, tokens: Seq<u32>)
    requires
        g.wf(),
        g.phase is Done,
        tokens.len() >= g.n_new,
        g.out@ == tokens.take(g.out@.len() as int),
    ensures
        g.out@ == until_end(tokens.take(g.n_new as int)),
{
    let n = g.out@.len() as int;
    let more = tokens.subrange(n, g.n_new as int);
    assert(tokens.take(g.n_new as int) =~= g.out@ + more);
    lemma_until_end(g.out@, more);
}

} // verus!
