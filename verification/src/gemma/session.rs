//! A model at work: prompts, decode steps, slots, and the loop that generates a text.

use vstd::prelude::*;

use crate::gemma::forward::lemma_steps_same;
use crate::gemma::kv_pool::{KvPool, PoolError, SlotId};
use crate::gemma::model::{samples, GemmaPrimModel, ModelError, Outcome, Step, PREFILL_CHUNK_SIZE};
use crate::gemma::prefill::tokens_fit;

verus! {

/// The tokens that end a text.
pub const EOS: u32 = 1;

pub const END_OF_TURN: u32 = 106;

/// Whether a token ends a text.
#[verifier::allow_in_spec]
pub fn ends_text(token: u32) -> bool
    returns
        token == EOS || token == END_OF_TURN,
{
    token == EOS || token == END_OF_TURN
}

/// The plan of a prompt as it stands after some of its tokens: the steps, or what went wrong, and
/// where the model is.
pub ghost struct PromptV {
    pub steps: Result<Seq<Step>, ModelError>,
    pub pos: usize,
    pub src: usize,
}

/// The length of the first chunk of `n` tokens.
pub open spec fn chunk_len(n: nat) -> nat {
    if n < PREFILL_CHUNK_SIZE {
        n
    } else {
        PREFILL_CHUNK_SIZE as nat
    }
}

impl GemmaPrimModel {
    /// The plan of a prompt, chunk by chunk; a chunk of one token is planned as a decode step
    /// without logits.
    pub open spec fn prompt_plan(
        self,
        acc: Seq<Step>,
        tokens: Seq<u32>,
        pos: usize,
        src: usize,
    ) -> PromptV
        decreases tokens.len(),
    {
        if tokens.len() == 0 {
            PromptV { steps: Ok(acc), pos, src }
        } else {
            let n = chunk_len(tokens.len());
            let chunk = tokens.take(n as int);
            let rest = tokens.skip(n as int);
            if n == 1 {
                match self.token_plan(acc, chunk[0], pos, src, false, false) {
                    Err(e) => PromptV {
                        steps: Err(e),
                        pos,
                        src: if e is MaxSeq {
                            src
                        } else {
                            self.turned(src, false)
                        },
                    },
                    Ok(s) => self.prompt_plan(
                        s,
                        rest,
                        (pos + 1) as usize,
                        self.turned(src, false),
                    ),
                }
            } else {
                match self.chunk_plan(acc, chunk, pos, src) {
                    Err(e) => PromptV { steps: Err(e), pos, src },
                    Ok(s) => self.prompt_plan(s, rest, (pos + n) as usize, src),
                }
            }
        }
    }

    /// The model at another place.
    pub open spec fn moved(self, pos: usize, src: usize) -> GemmaPrimModel {
        GemmaPrimModel { pos, decode_src: src, ..self }
    }

    /// Plans a prompt without logits and waits for it.
    pub fn prefill_chunk(&mut self, tokens: &Vec<u32>) -> (r: Result<Vec<Step>, ModelError>)
        requires
            old(self).wf(),
            tokens_fit(*old(self), tokens@),
        ensures
            final(self).wf(),
            ({
                let p = old(self).prompt_plan(
                    Seq::empty(),
                    tokens@,
                    old(self).pos,
                    old(self).decode_src,
                );
                &&& *final(self) == old(self).moved(p.pos, p.src)
                &&& match p.steps {
                    Err(e) => r == Err::<Vec<Step>, ModelError>(e),
                    Ok(s) => r matches Ok(v) && v@ == s.push(Step::Synchronize),
                }
            }),
    {
        let ghost was = *self;
        let ghost goal = was.prompt_plan(Seq::empty(), tokens@, was.pos, was.decode_src);
        let mut out: Vec<Step> = Vec::new();
        let mut i: usize = 0;
        assert(tokens@.skip(0) =~= tokens@);
        while i < tokens.len()
            invariant
                i <= tokens@.len(),
                was.wf(),
                self.wf(),
                was == *old(self),
                tokens_fit(was, tokens@),
                *self == was.moved(self.pos, self.decode_src),
                goal == was.prompt_plan(Seq::empty(), tokens@, was.pos, was.decode_src),
                goal == was.prompt_plan(out@, tokens@.skip(i as int), self.pos, self.decode_src),
            decreases tokens@.len() - i,
        {
            let left: usize = tokens.len() - i;
            let n: usize = if left < PREFILL_CHUNK_SIZE {
                left
            } else {
                PREFILL_CHUNK_SIZE
            };
            let ghost rest = tokens@.skip(i as int);
            let ghost acc = out@;
            assert(rest.skip(n as int) =~= tokens@.skip(i + n));
            proof {
                assert(self.same_model(was));
                lemma_token_plan_same(
                    *self,
                    was,
                    acc,
                    rest[0],
                    self.pos,
                    self.decode_src,
                    false,
                    samples(self.sample_temperature),
                );
                assert(self.token_fits(tokens@[i as int]) == was.token_fits(tokens@[i as int]));
            }
            if n == 1 {
                assert(rest.take(1)[0] == tokens@[i as int]);
                let token: u32 = tokens[i];
                match self.forward_into(&mut out, token, false) {
                    Err(e) => {
                        return Err(e);
                    },
                    Ok(_) => {},
                }
            } else {
                let chunk = copy_tokens(tokens, i, i + n);
                assert(chunk@ =~= rest.take(n as int));
                proof {
                    lemma_chunk_plan_same(*self, was, acc, chunk@, self.pos, self.decode_src);
                    assert forall|k: int| 0 <= k < chunk@.len() implies self.token_fits(
                        #[trigger] chunk@[k],
                    ) by {
                        assert(was.token_fits(tokens@[i + k]));
                    }
                }
                match self.forward_prefill_chunk(&mut out, &chunk) {
                    Err(e) => {
                        return Err(e);
                    },
                    Ok(_) => {},
                }
            }
            i += n;
        }
        out.push(Step::Synchronize);
        Ok(out)
    }

    /// Plans one prompt token without logits.
    pub fn prefill_token(&mut self, token: u32) -> (r: Result<Vec<Step>, ModelError>)
        requires
            old(self).wf(),
            old(self).token_fits(token),
        ensures
            final(self).wf(),
            match old(self).token_plan(
                Seq::empty(),
                token,
                old(self).pos,
                old(self).decode_src,
                false,
                samples(old(self).sample_temperature),
            ) {
                Err(e) => r == Err::<Vec<Step>, ModelError>(e) && *final(self) == old(self).moved(
                    old(self).pos,
                    if e is MaxSeq {
                        old(self).decode_src
                    } else {
                        old(self).turned(old(self).decode_src, false)
                    },
                ),
                Ok(s) => (r matches Ok(v) && v@ == s) && *final(self) == old(self).moved(
                    (old(self).pos + 1) as usize,
                    old(self).turned(old(self).decode_src, false),
                ),
            },
    {
        let mut out: Vec<Step> = Vec::new();
        match self.forward_into(&mut out, token, false) {
            Err(e) => Err(e),
            Ok(_) => Ok(out),
        }
    }

    /// The model as a decode step finds it.
    pub open spec fn asked(self, temperature: u32, min_p: u32, seed: u32) -> GemmaPrimModel {
        GemmaPrimModel {
            decode_src: 0,
            return_token_sync: true,
            sample_temperature: temperature,
            sample_min_p: min_p,
            sample_seed: seed,
            ..self
        }
    }

    /// The steps before a decode step: its token goes to the first token buffer, once nothing
    /// reads it any more.
    pub open spec fn told(self, token: u32) -> Seq<Step> {
        if self.ple_packed {
            Seq::<Step>::empty().push(Step::Synchronize).push(Step::WriteToken { slot: 0, token })
        } else {
            Seq::empty()
        }
    }

    /// Plans a decode step: `token` goes in, and the next token comes of it, sampled at
    /// `temperature` with `min_p` and `seed`, or the greatest where the temperature is nought.
    pub fn decode_token_sampled(
        &mut self,
        token: u32,
        temperature: u32,
        min_p: u32,
        seed: u32,
    ) -> (r:
        Result<(Vec<Step>, Outcome), ModelError>)
        requires
            old(self).wf(),
            old(self).token_fits(token),
        ensures
            final(self).wf(),
            final(self).same_model(*old(self)),
            ({
                let m = old(self).asked(temperature, min_p, seed);
                match m.token_plan(m.told(token), token, m.pos, 0, true, samples(temperature)) {
                    Err(e) => r == Err::<(Vec<Step>, Outcome), ModelError>(e) && *final(self) == m,
                    Ok(s) => {
                        &&& r matches Ok((v, o)) && v@ == s && o == m.outcome_of(true)
                            && !(o is Nothing)
                        &&& *final(self) == (GemmaPrimModel {
                            pos: (m.pos + 1) as usize,
                            sample_temperature: if samples(temperature) {
                                0
                            } else {
                                temperature
                            },
                            ..m
                        })
                    },
                }
            }),
    {
        self.decode_src = 0;
        self.return_token_sync = true;
        self.sample_temperature = temperature;
        self.sample_min_p = min_p;
        self.sample_seed = seed;
        let ghost m = *self;
        let mut out: Vec<Step> = Vec::new();
        if self.ple_packed {
            out.push(Step::Synchronize);
            out.push(Step::WriteToken { slot: 0, token });
        }
        assert(out@ =~= m.told(token));
        match self.forward_into(&mut out, token, true) {
            Err(e) => Err(e),
            Ok(o) => Ok((out, o)),
        }
    }

    /// Plans a greedy decode step.
    pub fn decode_token(&mut self, token: u32) -> (r: Result<(Vec<Step>, Outcome), ModelError>)
        requires
            old(self).wf(),
            old(self).token_fits(token),
        ensures
            final(self).wf(),
            final(self).same_model(*old(self)),
            ({
                let m = old(self).asked(0, 0, 1);
                match m.token_plan(m.told(token), token, m.pos, 0, true, false) {
                    Err(e) => r == Err::<(Vec<Step>, Outcome), ModelError>(e) && *final(self) == m,
                    Ok(s) => (r matches Ok((v, o)) && v@ == s && o == (Outcome::Argmax { slot: 1 }))
                        && *final(self) == (GemmaPrimModel { pos: (m.pos + 1) as usize, ..m }),
                }
            }),
    {
        self.decode_token_sampled(token, 0, 0, 1)
    }

    /// Binds the keys and values and the position of a slot.
    pub fn bind_slot(&mut self, pool: &KvPool, slot: SlotId) -> (r: Result<(), ModelError>)
        requires
            old(self).wf(),
            pool.wf(),
        ensures
            final(self).wf(),
            if old(self).kv_layers != pool.n_kv_layers {
                &&& r == Err::<(), ModelError>(
                    ModelError::KvLayers { model: old(self).kv_layers, pool: pool.n_kv_layers },
                )
                &&& *final(self) == *old(self)
            } else if !pool.valid(slot) {
                &&& r == Err::<(), ModelError>(ModelError::BadSlot)
                &&& *final(self) == *old(self)
            } else {
                &&& r == Ok::<(), ModelError>(())
                &&& *final(self) == (GemmaPrimModel {
                    slot: Some(slot),
                    pos: pool.slot(slot).seq_len,
                    ..*old(self)
                })
            },
    {
        if self.kv_layers != pool.n_kv_layers {
            return Err(
                ModelError::KvLayers { model: self.kv_layers, pool: pool.n_kv_layers },
            );
        }
        match pool.seq_len(slot) {
            Err(_) => Err(ModelError::BadSlot),
            Ok(n) => {
                self.slot = Some(slot);
                self.pos = n;
                Ok(())
            },
        }
    }

    /// The most positions a sequence may have.
    pub fn max_seq(&self) -> (r: usize)
        ensures
            r == self.max_seq,
    {
        self.max_seq
    }

    /// Makes a pool of slots for the model, with single-precision caches.
    pub fn make_kv_pool(&self, max_batch: usize) -> (r: Result<KvPool, PoolError>)
        requires
            max_batch <= u32::MAX,
        ensures
            KvPool::made(
                r,
                max_batch,
                self.max_seq,
                self.cfg.owners() as usize,
                self.cfg.max_hd(),
                self.cfg.n_kv,
                true,
                4,
            ),
    {
        let hd: usize = if self.cfg.head_dim_full >= self.cfg.head_dim_swa {
            self.cfg.head_dim_full
        } else {
            self.cfg.head_dim_swa
        };
        KvPool::new_f32(max_batch, self.max_seq, self.cfg.n_kv_owners(), hd, self.cfg.n_kv)
    }

    /// Puts the model back to its first position.
    pub fn reset(&mut self)
        requires
            old(self).wf(),
        ensures
            final(self).wf(),
            *final(self) == (GemmaPrimModel {
                pos: 0,
                decode_src: 0,
                return_token_sync: true,
                sample_temperature: 0,
                ..*old(self)
            }),
    {
        self.pos = 0;
        self.decode_src = 0;
        self.return_token_sync = true;
        self.sample_temperature = 0;
    }
}

impl GemmaPrimModel {
    /// A prompt that fits behind the present position is planned to its end; one that does not
    /// is refused.
    pub proof fn lemma_prompt(self, acc: Seq<Step>, tokens: Seq<u32>, pos: usize, src: usize)
        requires
            pos <= self.max_seq,
            src < 2,
            self.embd_dtype is F16 || self.embd_dtype is Q4K,
        ensures
            ({
                let p = self.prompt_plan(acc, tokens, pos, src);
                if pos + tokens.len() <= self.max_seq {
                    p.steps is Ok && p.pos == pos + tokens.len()
                } else {
                    p.steps == Err::<Seq<Step>, ModelError>(ModelError::MaxSeq)
                }
            }),
        decreases tokens.len(),
    {
        if tokens.len() > 0 {
            let n = chunk_len(tokens.len());
            let chunk = tokens.take(n as int);
            let rest = tokens.skip(n as int);
            if n == 1 {
                if let Ok(s) = self.token_plan(acc, chunk[0], pos, src, false, false) {
                    self.lemma_prompt(s, rest, (pos + 1) as usize, self.turned(src, false));
                }
            } else {
                self.lemma_chunk_entry(acc, chunk, pos, src);
                if let Ok(s) = self.chunk_plan(acc, chunk, pos, src) {
                    self.lemma_prompt(s, rest, (pos + n) as usize, src);
                }
            }
        }
    }

    proof fn lemma_chunk_entry(self, acc: Seq<Step>, tokens: Seq<u32>, pos: usize, src: usize)
        requires
            self.embd_dtype is F16 || self.embd_dtype is Q4K,
        ensures
            self.chunk_entry_steps(acc, tokens, pos, src) is Ok,
    {
        self.lemma_singly_ok(
            self.told_steps(acc, tokens, tokens.len()),
            tokens,
            tokens.len(),
            pos,
            src,
        );
    }

    proof fn lemma_singly_ok(
        self,
        acc: Seq<Step>,
        tokens: Seq<u32>,
        n: nat,
        pos: usize,
        src: usize,
    )
        requires
            self.embd_dtype is F16 || self.embd_dtype is Q4K,
        ensures
            self.singly_steps(acc, tokens, n, pos, src) is Ok,
        decreases n,
    {
        if n > 0 {
            self.lemma_singly_ok(acc, tokens, (n - 1) as nat, pos, src);
        }
    }
}

fn copy_tokens(v: &Vec<u32>, from: usize, to: usize) -> (r: Vec<u32>)
    requires
        from <= to <= v@.len(),
    ensures
        r@ == v@.subrange(from as int, to as int),
{
    let mut r: Vec<u32> = Vec::new();
    let mut i: usize = from;
    while i < to
        invariant
            from <= i <= to <= v@.len(),
            r@ == v@.subrange(from as int, i as int),
        decreases to - i,
    {
        r.push(v[i]);
        assert(r@ =~= v@.subrange(from as int, i + 1));
        i += 1;
    }
    r
}

/// The plan of a token depends only on what a plan leaves alone.
proof fn lemma_token_plan_same(
    a: GemmaPrimModel,
    b: GemmaPrimModel,
    acc: Seq<Step>,
    token: u32,
    pos: usize,
    src: usize,
    want: bool,
    sampling: bool,
)
    requires
        a.same_model(b),
    ensures
        a.token_plan(acc, token, pos, src, want, sampling) == b.token_plan(
            acc,
            token,
            pos,
            src,
            want,
            sampling,
        ),
        !want ==> b.token_plan(acc, token, pos, src, want, sampling) == b.token_plan(
            acc,
            token,
            pos,
            src,
            want,
            false,
        ),
{
    let s = b.turned(src, want);
    assert(a.entry_steps(acc, token, pos, s, want) == b.entry_steps(acc, token, pos, s, want));
    if let Ok(entered) = b.entry_steps(acc, token, pos, s, want) {
        lemma_steps_same(a, b, entered, b.cfg.n_layers as nat, pos);
    }
}

proof fn lemma_told_same(
    a: GemmaPrimModel,
    b: GemmaPrimModel,
    acc: Seq<Step>,
    tokens: Seq<u32>,
    n: nat,
)
    ensures
        a.told_steps(acc, tokens, n) == b.told_steps(acc, tokens, n),
    decreases n,
{
    if n > 0 {
        lemma_told_same(a, b, acc, tokens, (n - 1) as nat);
    }
}

proof fn lemma_singly_same(
    a: GemmaPrimModel,
    b: GemmaPrimModel,
    acc: Seq<Step>,
    tokens: Seq<u32>,
    n: nat,
    pos: usize,
    src: usize,
)
    requires
        a.same_model(b),
    ensures
        a.singly_steps(acc, tokens, n, pos, src) == b.singly_steps(acc, tokens, n, pos, src),
    decreases n,
{
    if n > 0 {
        lemma_singly_same(a, b, acc, tokens, (n - 1) as nat, pos, src);
    }
}

proof fn lemma_chunk_layers_same(
    a: GemmaPrimModel,
    b: GemmaPrimModel,
    acc: Seq<Step>,
    n: nat,
    pos: usize,
    batch: usize,
)
    requires
        a.same_model(b),
    ensures
        a.chunk_layer_steps(acc, n, pos, batch) == b.chunk_layer_steps(acc, n, pos, batch),
    decreases n,
{
    if n > 0 {
        lemma_chunk_layers_same(a, b, acc, (n - 1) as nat, pos, batch);
    }
}

/// The plan of a chunk depends only on what a plan leaves alone.
proof fn lemma_chunk_plan_same(
    a: GemmaPrimModel,
    b: GemmaPrimModel,
    acc: Seq<Step>,
    tokens: Seq<u32>,
    pos: usize,
    src: usize,
)
    requires
        a.same_model(b),
    ensures
        a.chunk_plan(acc, tokens, pos, src) == b.chunk_plan(acc, tokens, pos, src),
{
    lemma_told_same(a, b, acc, tokens, tokens.len());
    lemma_singly_same(
        a,
        b,
        b.told_steps(acc, tokens, tokens.len()),
        tokens,
        tokens.len(),
        pos,
        src,
    );
    if let Ok(s) = b.chunk_entry_steps(acc, tokens, pos, src) {
        let batch = tokens.len() as usize;
        lemma_chunk_layers_same(
            a,
            b,
            b.prepass_batch_steps(s, batch),
            b.cfg.n_layers as nat,
            pos,
            batch,
        );
    }
}

} // verus!
