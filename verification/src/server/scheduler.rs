//! Which request runs next: slots, chunked prefill and decode steps, and when a request is over.
//!
//! Work on the device is serial. Every request owns a slot; a tick decodes one token for every
//! decoding request, then prefills the others chunk by chunk.

use vstd::prelude::*;
use vstd::string::*;

use crate::gemma::kv_pool::{first_free, taken, KvPool, KvSlot, PoolError, SlotId};
use crate::gemma::model::PREFILL_CHUNK_SIZE;
use crate::gemma::sample::GOLDEN;
use crate::gemma::session::ends_text;
use crate::server::chat::is_text;
use crate::text::{chars_of, contains, find, find_str, has_str, lemma_find, string_of, texts};

verus! {

/// What a request is told.
#[derive(Clone, Debug)]
pub enum StreamEvent {
    Token(u32),
    Done { finish_reason: String, prompt_tokens: usize, completion_tokens: usize },
    Error(String),
}

#[verifier::ext_equal]
pub ghost enum EventV {
    Token(u32),
    Done { finish_reason: Seq<char>, prompt_tokens: usize, completion_tokens: usize },
    Error(Seq<char>),
}

impl View for StreamEvent {
    type V = EventV;

    open spec fn view(&self) -> EventV {
        match *self {
            StreamEvent::Token(t) => EventV::Token(t),
            StreamEvent::Done { finish_reason, prompt_tokens, completion_tokens } => EventV::Done {
                finish_reason: finish_reason@,
                prompt_tokens,
                completion_tokens,
            },
            StreamEvent::Error(m) => EventV::Error(m@),
        }
    }
}

/// A request for tokens. Floating-point values are bit patterns.
#[derive(Debug)]
pub struct InferenceRequest {
    pub prompt_ids: Vec<u32>,
    pub max_tokens: usize,
    pub stop: Vec<String>,
    pub temperature: u32,
    pub min_p: u32,
    pub seed: u32,
}

/// Where a request is.
#[derive(Clone, Copy, Debug, PartialEq, Eq, Structural)]
pub enum Phase {
    /// So many tokens of the prompt are done.
    Prefill { cursor: usize },
    /// This token is decoded next.
    Decode { last_token: u32 },
}

/// A request that owns a slot.
#[derive(Debug)]
pub struct Active {
    pub slot: SlotId,
    pub prompt_ids: Vec<u32>,
    pub generated: Vec<u32>,
    pub text: String,
    pub max_tokens: usize,
    pub stop: Vec<String>,
    pub temperature: u32,
    pub min_p: u32,
    pub rng: u32,
    pub phase: Phase,
    pub finished: bool,
}

/// How many requests run at once, and how much of their prompts in one tick.
#[derive(Clone, Copy, Debug, PartialEq, Eq, Structural)]
pub struct SchedulerConfig {
    pub slots: usize,
    pub prefill_chunk: usize,
    pub prefill_tokens_per_tick: usize,
}

impl Default for SchedulerConfig {
    fn default() -> (r: SchedulerConfig)
        ensures
            r == (SchedulerConfig {
                slots: 4,
                prefill_chunk: PREFILL_CHUNK_SIZE,
                prefill_tokens_per_tick: 2048,
            }),
    {
        SchedulerConfig {
            slots: 4,
            prefill_chunk: PREFILL_CHUNK_SIZE,
            prefill_tokens_per_tick: 2048,
        }
    }
}

/// The texts that end every request.
pub open spec fn builtin_stop(i: int) -> Seq<char> {
    if i == 0 {
        "<turn|>"@
    } else if i == 1 {
        "<|turn>"@
    } else {
        "<tool_call|>"@
    }
}

fn builtin(i: usize) -> (r: &'static str)
    ensures
        r@ == builtin_stop(i as int),
{
    match i {
        0 => "<turn|>",
        1 => "<|turn>",
        _ => "<tool_call|>",
    }
}

/// The stop texts with the first `k` of the built-in ones behind them, where they are not there
/// yet.
pub open spec fn with_builtins(stop: Seq<Seq<char>>, k: nat) -> Seq<Seq<char>>
    decreases k,
{
    if k == 0 {
        stop
    } else {
        let s = with_builtins(stop, (k - 1) as nat);
        if s.contains(builtin_stop(k - 1)) {
            s
        } else {
            s.push(builtin_stop(k - 1))
        }
    }
}

fn has_text(v: &Vec<String>, s: &str) -> (r: bool)
    ensures
        r == texts(v@).contains(s@),
{
    let ghost all = texts(v@);
    let mut i: usize = 0;
    while i < v.len()
        invariant
            i <= v@.len(),
            all == texts(v@),
            forall|k: int| 0 <= k < i ==> all[k] != s@,
        decreases v@.len() - i,
    {
        assert(all[i as int] == v@[i as int]@);
        if is_text(v[i].as_str(), s) {
            assert(all.contains(all[i as int]));
            return true;
        }
        i += 1;
    }
    false
}

/// The first stop text, in the order of the list, that stands in the text.
pub open spec fn first_hit(text: Seq<char>, stops: Seq<Seq<char>>, from: int) -> Option<Seq<char>>
    decreases stops.len() - from,
{
    if from < 0 || from >= stops.len() {
        None
    } else if stops[from].len() > 0 && contains(text, stops[from]) {
        Some(stops[from])
    } else {
        first_hit(text, stops, from + 1)
    }
}

pub fn hit_stop(text: &str, stops: &Vec<String>) -> (r: Option<String>)
    ensures
        match r {
            Some(s) => first_hit(text@, texts(stops@), 0) == Some(s@),
            None => first_hit(text@, texts(stops@), 0) is None,
        },
{
    let v = chars_of(text);
    let ghost all = texts(stops@);
    let mut i: usize = 0;
    while i < stops.len()
        invariant
            i <= stops@.len(),
            v@ == text@,
            all == texts(stops@),
            first_hit(text@, all, 0) == first_hit(text@, all, i as int),
        decreases stops@.len() - i,
    {
        assert(all[i as int] == stops@[i as int]@);
        if !stops[i].as_str().is_empty() && has_str(&v, stops[i].as_str()) {
            return Some(stops[i].clone());
        }
        i += 1;
    }
    None
}

/// A text up to the first place of a stop text.
pub open spec fn trimmed_at(text: Seq<char>, stop: Seq<char>) -> Seq<char> {
    match find(text, stop, 0) {
        Some(i) => text.take(i),
        None => text,
    }
}

pub fn trim_stop(text: &mut String, stop: &str)
    ensures
        final(text)@ == trimmed_at(old(text)@, stop@),
{
    let v = chars_of(text.as_str());
    if let Some(i) = find_str(&v, stop, 0) {
        let t = string_of(&v, 0, i);
        assert(t@ =~= v@.take(i as int));
        *text = t;
    }
}

/// A trimmed text is the part of the text before the stop text, and does not hold it.
pub proof fn lemma_trimmed(text: Seq<char>, stop: Seq<char>)
    requires
        stop.len() > 0,
    ensures
        !contains(trimmed_at(text, stop), stop),
        trimmed_at(text, stop).len() <= text.len(),
        trimmed_at(text, stop) == text.take(trimmed_at(text, stop).len() as int),
        contains(text, stop) ==> crate::text::occurs_at(
            text,
            stop,
            trimmed_at(text, stop).len() as int,
        ),
{
    lemma_find(text, stop, 0);
    let t = trimmed_at(text, stop);
    lemma_find(t, stop, 0);
    match find(text, stop, 0) {
        Some(i) => {
            if let Some(j) = find(t, stop, 0) {
                assert(text.subrange(j, j + stop.len()) =~= t.subrange(j, j + stop.len()));
                assert(crate::text::occurs_at(text, stop, j));
            }
        },
        None => {
            assert(t =~= text.take(t.len() as int));
        },
    }
}

/// Whether the last `n` tokens are all the same.
pub open spec fn repeats(ids: Seq<u32>, n: nat) -> bool {
    &&& ids.len() >= n
    &&& forall|i: int| ids.len() - n <= i < ids.len() ==> #[trigger] ids[i] == ids.last()
}

pub fn repeating_token(ids: &Vec<u32>, n: usize) -> (r: bool)
    requires
        n > 0 || ids@.len() > 0,
    ensures
        r == repeats(ids@, n as nat),
{
    if ids.len() < n {
        return false;
    }
    let last: u32 = ids[ids.len() - 1];
    let from: usize = ids.len() - n;
    let mut i: usize = from;
    while i < ids.len()
        invariant
            from <= i <= ids@.len(),
            from == ids@.len() - n,
            last == ids@.last(),
            forall|k: int| from <= k < i ==> #[trigger] ids@[k] == last,
        decreases ids@.len() - i,
    {
        if ids[i] != last {
            assert(ids@[i as int] != ids@.last());
            return false;
        }
        i += 1;
    }
    true
}

impl Active {
    /// How many positions of its slot a request has filled.
    pub open spec fn progress(self) -> int {
        match self.phase {
            Phase::Prefill { cursor } => cursor as int,
            Phase::Decode { .. } => self.prompt_ids@.len() - 1 + self.generated@.len(),
        }
    }

    /// Whether a request is consistent: a prompt, at least one token to come and not more than
    /// asked for, none of them before the prompt is done, and no stop text so far.
    pub open spec fn wf(self) -> bool {
        &&& self.prompt_ids@.len() > 0
        &&& self.max_tokens > 0
        &&& self.generated@.len() <= self.max_tokens
        &&& self.phase matches Phase::Prefill { cursor } ==> cursor < self.prompt_ids@.len()
            && self.generated@.len() == 0
        &&& !self.finished ==> first_hit(self.text@, texts(self.stop@), 0) is None
    }

    /// Whether the pool knows of the request what the request knows.
    pub open spec fn linked(self, pool: KvPool) -> bool {
        &&& pool.valid(self.slot)
        &&& pool.slot(self.slot).occupied
        &&& !self.finished ==> pool.slot(self.slot).seq_len == self.progress()
    }

    /// What a request is told when it is over: nothing if it was over, or if it failed.
    pub open spec fn farewell(self, reason: Seq<char>) -> Option<EventV> {
        if self.finished || reason == "error"@ {
            None
        } else {
            Some(
                EventV::Done {
                    finish_reason: reason,
                    prompt_tokens: self.prompt_ids@.len() as usize,
                    completion_tokens: self.generated@.len() as usize,
                },
            )
        }
    }

    /// The request, over.
    pub open spec fn over(self) -> Active {
        Active { finished: true, ..self }
    }

    /// Ends a request.
    pub fn finish(&mut self, reason: &str) -> (r: Option<StreamEvent>)
        ensures
            *final(self) == old(self).over(),
            match r {
                Some(e) => old(self).farewell(reason@) == Some(e@),
                None => old(self).farewell(reason@) is None,
            },
    {
        if self.finished {
            return None;
        }
        self.finished = true;
        if is_text(reason, "error") {
            None
        } else {
            Some(
                StreamEvent::Done {
                    finish_reason: String::from_str(reason),
                    prompt_tokens: self.prompt_ids.len(),
                    completion_tokens: self.generated.len(),
                },
            )
        }
    }

    /// Turns a request from its prompt to decoding: the last token of the prompt is decoded first.
    pub fn enter_decode(&mut self)
        requires
            old(self).prompt_ids@.len() > 0,
        ensures
            *final(self) == (Active {
                phase: Phase::Decode { last_token: old(self).prompt_ids@.last() },
                ..*old(self)
            }),
    {
        let last: u32 = self.prompt_ids[self.prompt_ids.len() - 1];
        self.phase = Phase::Decode { last_token: last };
    }
}

/// A request that was just given a slot.
pub open spec fn admitted(a: Active, req: InferenceRequest, slot: SlotId) -> bool {
    &&& a.slot == slot
    &&& a.prompt_ids@ == req.prompt_ids@
    &&& a.generated@.len() == 0
    &&& a.text@.len() == 0
    &&& a.max_tokens == (if req.max_tokens == 0 {
        1
    } else {
        req.max_tokens
    })
    &&& texts(a.stop@) == with_builtins(texts(req.stop@), 3)
    &&& a.temperature == req.temperature
    &&& a.min_p == req.min_p
    &&& a.rng == req.seed | 1
    &&& a.phase == (Phase::Prefill { cursor: 0 })
    &&& !a.finished
}

/// Nothing but an empty text stands in an empty text.
proof fn lemma_no_hit_in_nothing(stops: Seq<Seq<char>>, from: int)
    ensures
        first_hit(Seq::empty(), stops, from) is None,
    decreases stops.len() - from,
{
    if 0 <= from < stops.len() {
        lemma_no_hit_in_nothing(stops, from + 1);
    }
}

/// Gives a request a slot.
pub fn admit_request(pool: &mut KvPool, req: InferenceRequest) -> (r: Result<Active, PoolError>)
    requires
        old(pool).wf(),
        req.prompt_ids@.len() > 0,
    ensures
        final(pool).wf(),
        final(pool).same_shape(*old(pool)),
        match r {
            Ok(a) => {
                &&& first_free(old(pool).slots@, 0) == Some(a.slot.0 as int)
                &&& admitted(a, req, a.slot)
                &&& a.wf()
                &&& a.linked(*final(pool))
                &&& final(pool).slots@ == old(pool).slots@.update(
                    a.slot.0 as int,
                    (KvSlot { occupied: true, seq_len: 0, ..old(pool).slots@[a.slot.0 as int] }),
                )
            },
            Err(e) => {
                &&& first_free(old(pool).slots@, 0) is None
                &&& e == (PoolError::Full { max_batch: old(pool).max_batch })
                &&& final(pool).slots@ == old(pool).slots@
            },
        },
{
    let slot = pool.alloc_slot()?;
    match pool.clear_slot(slot) {
        Ok(_) => {},
        Err(e) => {
            return Err(e);
        },
    }
    let mut stop: Vec<String> = req.stop;
    let ghost asked = texts(stop@);
    let mut k: usize = 0;
    while k < 3
        invariant
            k <= 3,
            texts(stop@) == with_builtins(asked, k as nat),
        decreases 3 - k,
    {
        let s = builtin(k);
        if !has_text(&stop, s) {
            let ghost before = texts(stop@);
            let t = String::from_str(s);
            stop.push(t);
            assert(texts(stop@) =~= before.push(t@));
        }
        k += 1;
    }
    let text = String::new();
    proof {
        assert(text@ =~= Seq::<char>::empty());
        lemma_no_hit_in_nothing(texts(stop@), 0);
    }
    Ok(
        Active {
            slot,
            prompt_ids: req.prompt_ids,
            generated: Vec::new(),
            text,
            max_tokens: if req.max_tokens == 0 {
                1
            } else {
                req.max_tokens
            },
            stop,
            temperature: req.temperature,
            min_p: req.min_p,
            rng: req.seed | 1,
            phase: Phase::Prefill { cursor: 0 },
            finished: false,
        },
    )
}

/// What a decode round does with a request.
#[derive(Clone, Copy, Debug, PartialEq, Eq, Structural)]
pub enum DecodeDue {
    /// Nothing.
    Skip,
    /// It is over: it has its tokens, or its slot is full.
    Over,
    /// This token is decoded, sampled so.
    Run { token: u32, temperature: u32, min_p: u32, seed: u32 },
}

/// What a decode round does with a request whose slot holds `seq_len` of `max_seq` positions.
pub open spec fn decode_due(a: Active, seq_len: usize, max_seq: usize) -> DecodeDue {
    match a.phase {
        Phase::Decode { last_token } if !a.finished => if a.generated@.len() >= a.max_tokens
            || seq_len >= max_seq {
            DecodeDue::Over
        } else {
            DecodeDue::Run {
                token: last_token,
                temperature: a.temperature,
                min_p: a.min_p,
                seed: a.rng.wrapping_add(GOLDEN),
            }
        },
        _ => DecodeDue::Skip,
    }
}

/// The number of positions in a slot; none in one that is not there.
pub open spec fn filled(pool: KvPool, slot: SlotId) -> usize {
    if pool.valid(slot) {
        pool.slot(slot).seq_len
    } else {
        0
    }
}

/// Begins a decode step of a request: what is to be decoded, and the event where it is over.
pub fn begin_decode(a: &mut Active, pool: &KvPool, max_seq: usize) -> (r: (
    DecodeDue,
    Option<StreamEvent>,
))
    ensures
        r.0 == decode_due(*old(a), filled(*pool, old(a).slot), max_seq),
        match r.0 {
            DecodeDue::Skip => *final(a) == *old(a) && r.1 is None,
            DecodeDue::Over => *final(a) == old(a).over() && match r.1 {
                Some(e) => old(a).farewell("length"@) == Some(e@),
                None => old(a).farewell("length"@) is None,
            },
            DecodeDue::Run { seed, .. } => *final(a) == (Active { rng: seed, ..*old(a) }) && r.1
                is None,
        },
{
    let last: u32 = match a.phase {
        Phase::Decode { last_token } => last_token,
        Phase::Prefill { .. } => {
            return (DecodeDue::Skip, None);
        },
    };
    if a.finished {
        return (DecodeDue::Skip, None);
    }
    let seq_len: usize = match pool.seq_len(a.slot) {
        Ok(n) => n,
        Err(_) => 0,
    };
    if a.generated.len() >= a.max_tokens || seq_len >= max_seq {
        let e = a.finish("length");
        return (DecodeDue::Over, e);
    }
    a.rng = a.rng.wrapping_add(GOLDEN);
    (
        DecodeDue::Run { token: last, temperature: a.temperature, min_p: a.min_p, seed: a.rng },
        None,
    )
}

/// What comes of a decoded token.
#[derive(Debug)]
pub enum DecodeVerdict {
    /// The slot could not take it: the request is over.
    Failed,
    /// The request is over, with this reason.
    Over(&'static str),
    /// The token is to be sent.
    Emit(u32),
}

/// The reason why a request is over with this token, if it is: the token ends the text, the text
/// holds a stop text, or the last tokens repeat.
pub open spec fn decode_stop(a: Active, next: u32, piece: Seq<char>) -> bool {
    ||| ends_text(next)
    ||| first_hit(a.text@ + piece, texts(a.stop@), 0) is Some
    ||| repeats(a.generated@.push(next), 24)
}

/// The text of a request with a decoded token behind it, cut at a stop text.
pub open spec fn text_after(a: Active, next: u32, piece: Seq<char>) -> Seq<char> {
    if ends_text(next) {
        a.text@
    } else {
        match first_hit(a.text@ + piece, texts(a.stop@), 0) {
            Some(s) => trimmed_at(a.text@ + piece, s),
            None => a.text@ + piece,
        }
    }
}

/// The tokens of a request with a decoded token behind them: one that ends the text, or completes
/// a stop text, is not kept.
pub open spec fn generated_after(a: Active, next: u32, piece: Seq<char>) -> Seq<u32> {
    if ends_text(next) || first_hit(a.text@ + piece, texts(a.stop@), 0) is Some {
        a.generated@
    } else {
        a.generated@.push(next)
    }
}

/// Takes a decoded token and its text into a request: its slot grows by one position, and the
/// request goes on with the token, or is over.
pub fn take_token(a: &mut Active, pool: &mut KvPool, next: u32, piece: &str) -> (r: (
    DecodeVerdict,
    Option<StreamEvent>,
))
    requires
        old(pool).wf(),
        old(a).wf(),
        old(a).linked(*old(pool)),
        !old(a).finished,
        old(a).phase is Decode,
        old(a).generated@.len() < old(a).max_tokens,
    ensures
        final(pool).wf(),
        final(a).wf(),
        final(a).slot == old(a).slot,
        final(a).prompt_ids == old(a).prompt_ids,
        final(a).linked(*final(pool)),
        match old(pool).grown(old(a).slot, 1) {
            Err(e) => {
                &&& r.0 is Failed
                &&& r.1 matches Some(v) && v@ == EventV::Error(e.text())
                &&& *final(a) == old(a).over()
                &&& final(pool).grew(*old(pool), old(a).slot, Err(e))
            },
            Ok(n) => {
                &&& final(pool).grew(*old(pool), old(a).slot, Ok(n))
                &&& *final(a) == (Active {
                    phase: Phase::Decode { last_token: next },
                    text: final(a).text,
                    generated: final(a).generated,
                    finished: final(a).finished,
                    ..*old(a)
                })
                &&& final(a).text@ == text_after(*old(a), next, piece@)
                &&& final(a).generated@ == generated_after(*old(a), next, piece@)
                &&& final(a).finished == decode_stop(*old(a), next, piece@)
                &&& if decode_stop(*old(a), next, piece@) {
                    &&& r.0 matches DecodeVerdict::Over(s) && s@ == "stop"@
                    &&& r.1 matches Some(e) && e@ == (EventV::Done {
                        finish_reason: "stop"@,
                        prompt_tokens: old(a).prompt_ids@.len() as usize,
                        completion_tokens: generated_after(*old(a), next, piece@).len() as usize,
                    })
                } else {
                    r.0 == DecodeVerdict::Emit(next) && r.1 is None
                }
            },
        },
{
    proof {
        reveal_strlit("stop");
        reveal_strlit("error");
        assert("stop"@.len() != "error"@.len());
    }
    match pool.bump_len(a.slot) {
        Err(e) => {
            let _ = a.finish("error");
            return (DecodeVerdict::Failed, Some(StreamEvent::Error(e.message())));
        },
        Ok(_) => {},
    }
    a.phase = Phase::Decode { last_token: next };
    if ends_text(next) {
        let e = a.finish("stop");
        return (DecodeVerdict::Over("stop"), e);
    }
    a.text = a.text.clone().concat(piece);
    if let Some(s) = hit_stop(a.text.as_str(), &a.stop) {
        trim_stop(&mut a.text, s.as_str());
        let e = a.finish("stop");
        return (DecodeVerdict::Over("stop"), e);
    }
    a.generated.push(next);
    if repeating_token(&a.generated, 24) {
        let e = a.finish("stop");
        return (DecodeVerdict::Over("stop"), e);
    }
    (DecodeVerdict::Emit(next), None)
}

/// Ends a decode step whose token was sent, or could not be: nobody listens any more, or the
/// request has its tokens, or it goes on.
pub fn token_sent(a: &mut Active, delivered: bool) -> (r: Option<StreamEvent>)
    requires
        old(a).wf(),
        !old(a).finished,
    ensures
        final(a).wf(),
        if !delivered {
            *final(a) == old(a).over() && (r matches Some(e) && old(a).farewell("cancelled"@)
                == Some(e@))
        } else if old(a).generated@.len() >= old(a).max_tokens {
            *final(a) == old(a).over() && (r matches Some(e) && old(a).farewell("length"@) == Some(
                e@,
            ))
        } else {
            *final(a) == *old(a) && r is None
        },
{
    proof {
        reveal_strlit("cancelled");
        reveal_strlit("length");
        reveal_strlit("error");
        assert("cancelled"@.len() != "error"@.len());
        assert("length"@.len() != "error"@.len());
    }
    if !delivered {
        return a.finish("cancelled");
    }
    if a.generated.len() >= a.max_tokens {
        return a.finish("length");
    }
    None
}

/// Whether another request may get a slot.
pub fn has_room(pool: &KvPool, cfg: &SchedulerConfig) -> (r: bool)
    ensures
        r == (taken(pool.slots@).len() < cfg.slots),
{
    pool.active_batch().len() < cfg.slots
}

/// Gives a request a slot, or says why it gets none: it has no prompt, or the pool is full.
pub fn try_admit(pool: &mut KvPool, req: InferenceRequest) -> (r: Result<Active, String>)
    requires
        old(pool).wf(),
    ensures
        final(pool).wf(),
        final(pool).same_shape(*old(pool)),
        match r {
            Ok(a) => {
                &&& req.prompt_ids@.len() > 0
                &&& first_free(old(pool).slots@, 0) == Some(a.slot.0 as int)
                &&& admitted(a, req, a.slot)
                &&& a.wf()
                &&& a.linked(*final(pool))
                &&& final(pool).slots@ == old(pool).slots@.update(
                    a.slot.0 as int,
                    (KvSlot { occupied: true, seq_len: 0, ..old(pool).slots@[a.slot.0 as int] }),
                )
            },
            Err(m) => {
                &&& final(pool).slots@ == old(pool).slots@
                &&& if req.prompt_ids@.len() == 0 {
                    m@ == "empty prompt"@
                } else {
                    &&& first_free(old(pool).slots@, 0) is None
                    &&& m@ == "admit failed: "@ + (PoolError::Full {
                        max_batch: old(pool).max_batch,
                    }).text()
                }
            },
        },
{
    if req.prompt_ids.is_empty() {
        return Err(String::from_str("empty prompt"));
    }
    match admit_request(pool, req) {
        Ok(a) => Ok(a),
        Err(e) => Err(String::from_str("admit failed: ").concat(e.message().as_str())),
    }
}

/// A chunk of a prompt that is due: tokens `from..from + take` of the request at `index`.
#[derive(Clone, Copy, Debug, PartialEq, Eq, Structural)]
pub struct PrefillJob {
    pub index: usize,
    pub from: usize,
    pub take: usize,
}

/// A round of prefill in progress: which request is next, how many are left to look at, and how
/// many tokens may still be spent.
#[derive(Clone, Copy, Debug, PartialEq, Eq, Structural)]
pub struct PrefillRound {
    pub idx: usize,
    pub left: usize,
    pub budget: usize,
    pub decoding: bool,
}

/// Whether any request is still at its prompt.
pub open spec fn any_prefill(active: Seq<Active>) -> bool {
    exists|i: int| 0 <= i < active.len() && (#[trigger] active[i]).phase is Prefill
}

/// Whether any request decodes.
pub open spec fn any_decode(active: Seq<Active>) -> bool {
    exists|i: int|
        0 <= i < active.len() && !(#[trigger] active[i]).finished && active[i].phase is Decode
}

fn find_prefill(active: &Vec<Active>) -> (r: bool)
    ensures
        r == any_prefill(active@),
{
    let mut i: usize = 0;
    while i < active.len()
        invariant
            i <= active@.len(),
            forall|k: int| 0 <= k < i ==> !((#[trigger] active@[k]).phase is Prefill),
        decreases active@.len() - i,
    {
        if let Phase::Prefill { .. } = active[i].phase {
            assert(active@[i as int].phase is Prefill);
            return true;
        }
        i += 1;
    }
    false
}

fn find_decode(active: &Vec<Active>) -> (r: bool)
    ensures
        r == any_decode(active@),
{
    let mut i: usize = 0;
    while i < active.len()
        invariant
            i <= active@.len(),
            forall|k: int|
                0 <= k < i ==> (#[trigger] active@[k]).finished || !(active@[k].phase is Decode),
        decreases active@.len() - i,
    {
        if !active[i].finished {
            if let Phase::Decode { .. } = active[i].phase {
                assert(active@[i as int].phase is Decode);
                return true;
            }
        }
        i += 1;
    }
    false
}

/// Begins a round at request `next_idx`; there is none where no request is at its prompt.
pub fn begin_prefill(active: &Vec<Active>, cfg: &SchedulerConfig, next_idx: usize) -> (r: Option<
    PrefillRound,
>)
    ensures
        r == (if active@.len() == 0 || !any_prefill(active@) {
            None
        } else {
            Some(
                PrefillRound {
                    idx: (next_idx as int % active@.len() as int) as usize,
                    left: active@.len() as usize,
                    budget: if cfg.prefill_tokens_per_tick >= cfg.prefill_chunk {
                        cfg.prefill_tokens_per_tick
                    } else {
                        cfg.prefill_chunk
                    },
                    decoding: any_decode(active@),
                },
            )
        }),
{
    if active.len() == 0 || !find_prefill(active) {
        return None;
    }
    Some(
        PrefillRound {
            idx: next_idx % active.len(),
            left: active.len(),
            budget: if cfg.prefill_tokens_per_tick >= cfg.prefill_chunk {
                cfg.prefill_tokens_per_tick
            } else {
                cfg.prefill_chunk
            },
            decoding: find_decode(active),
        },
    )
}

/// How many of the tokens that a prompt still lacks are done at once: within the budget, and in
/// small chunks where others decode.
pub open spec fn share(budget: usize, chunk: usize, decoding: bool, lacking: int) -> int {
    let cap = if decoding && chunk < budget {
        chunk
    } else {
        budget
    };
    if cap < lacking {
        cap as int
    } else {
        lacking
    }
}

/// What looking for the next chunk comes to.
pub ghost struct LookV {
    pub active: Seq<Active>,
    pub round: PrefillRound,
    pub job: Option<PrefillJob>,
}

/// Looks at one request after another: one whose prompt is done turns to decoding, and the first
/// that lacks some of it is due.
pub open spec fn look(active: Seq<Active>, round: PrefillRound, chunk: usize) -> LookV
    decreases round.left,
{
    if round.left == 0 || round.budget == 0 {
        LookV { active, round, job: None }
    } else {
        let i = round.idx as int;
        let next = PrefillRound {
            idx: ((i + 1) % active.len() as int) as usize,
            left: (round.left - 1) as usize,
            ..round
        };
        let a = active[i];
        match a.phase {
            Phase::Prefill { cursor } if !a.finished => if cursor >= a.prompt_ids@.len() - 1 {
                look(
                    active.update(
                        i,
                        (Active {
                            phase: Phase::Decode { last_token: a.prompt_ids@.last() },
                            ..a
                        }),
                    ),
                    next,
                    chunk,
                )
            } else {
                LookV {
                    active,
                    round: next,
                    job: Some(
                        PrefillJob {
                            index: round.idx,
                            from: cursor,
                            take: share(
                                round.budget,
                                chunk,
                                round.decoding,
                                a.prompt_ids@.len() - 1 - cursor,
                            ) as usize,
                        },
                    ),
                }
            },
            _ => look(active, next, chunk),
        }
    }
}

/// Whether requests and pool are consistent with each other: every request is, no two share a
/// slot, and every taken slot belongs to one of them.
pub open spec fn fleet(active: Seq<Active>, pool: KvPool) -> bool {
    &&& pool.wf()
    &&& forall|i: int| 0 <= i < active.len() ==> (#[trigger] active[i]).wf()
    &&& forall|i: int| 0 <= i < active.len() ==> (#[trigger] active[i]).linked(pool)
    &&& forall|i: int, j: int|
        0 <= i < j < active.len() ==> (#[trigger] active[i]).slot != (#[trigger] active[j]).slot
    &&& forall|k: int|
        0 <= k < pool.slots@.len() && (#[trigger] pool.slots@[k]).occupied ==> owned(active, k)
}

/// Whether some request owns slot number `k`.
pub open spec fn owned(active: Seq<Active>, k: int) -> bool {
    exists|i: int| 0 <= i < active.len() && (#[trigger] active[i]).slot.0 == k
}

/// A change of one request that keeps its slot and stays consistent keeps all consistent.
proof fn lemma_fleet_update(active: Seq<Active>, pool: KvPool, i: int, b: Active)
    requires
        fleet(active, pool),
        0 <= i < active.len(),
        b.wf(),
        b.linked(pool),
        b.slot == active[i].slot,
    ensures
        fleet(active.update(i, b), pool),
{
    let u = active.update(i, b);
    assert forall|k: int|
        0 <= k < pool.slots@.len() && (#[trigger] pool.slots@[k]).occupied implies owned(u, k) by {
        let j = choose|j: int| 0 <= j < active.len() && (#[trigger] active[j]).slot.0 == k;
        assert(u[j].slot.0 == k);
    }
}

/// Looking for the next chunk keeps requests and pool consistent.
pub proof fn lemma_look_keeps(active: Seq<Active>, pool: KvPool, round: PrefillRound, chunk: usize)
    requires
        fleet(active, pool),
        active.len() > 0,
        round.idx < active.len(),
    ensures
        ({
            let l = look(active, round, chunk);
            &&& fleet(l.active, pool)
            &&& l.active.len() == active.len()
            &&& l.round.idx < active.len()
            &&& l.round.budget == round.budget
            &&& l.job matches Some(j) ==> {
                &&& j.index < active.len()
                &&& !l.active[j.index as int].finished
                &&& l.active[j.index as int].phase == (Phase::Prefill { cursor: j.from })
                &&& j.from + j.take < l.active[j.index as int].prompt_ids@.len()
                &&& j.take <= round.budget
            }
        }),
    decreases round.left,
{
    if round.left > 0 && round.budget > 0 {
        let i = round.idx as int;
        let next = PrefillRound {
            idx: ((i + 1) % active.len() as int) as usize,
            left: (round.left - 1) as usize,
            ..round
        };
        assert(0 <= (i + 1) % active.len() as int && (i + 1) % active.len() as int
            <= active.len() - 1);
        let a = active[i];
        match a.phase {
            Phase::Prefill { cursor } if !a.finished => {
                if cursor >= a.prompt_ids@.len() - 1 {
                    let b = Active {
                        phase: Phase::Decode { last_token: a.prompt_ids@.last() },
                        ..a
                    };
                    lemma_fleet_update(active, pool, i, b);
                    lemma_look_keeps(active.update(i, b), pool, next, chunk);
                }
            },
            _ => {
                lemma_look_keeps(active, pool, next, chunk);
            },
        }
    }
}

impl PrefillRound {
    /// Finds the next chunk of the round.
    pub fn next_job(&mut self, active: &mut Vec<Active>, cfg: &SchedulerConfig) -> (r: Option<
        PrefillJob,
    >)
        requires
            old(active)@.len() > 0,
            old(self).idx < old(active)@.len(),
            forall|i: int|
                0 <= i < old(active)@.len() ==> (#[trigger] old(active)@[i]).prompt_ids@.len() > 0,
        ensures
            ({
                let l = look(old(active)@, *old(self), cfg.prefill_chunk);
                &&& final(active)@ == l.active
                &&& *final(self) == l.round
                &&& r == l.job
            }),
    {
        let ghost goal = look(active@, *self, cfg.prefill_chunk);
        while self.left > 0 && self.budget > 0
            invariant
                active@.len() > 0,
                self.idx < active@.len(),
                forall|i: int|
                    0 <= i < active@.len() ==> (#[trigger] active@[i]).prompt_ids@.len() > 0,
                goal == look(active@, *self, cfg.prefill_chunk),
                goal == look(old(active)@, *old(self), cfg.prefill_chunk),
            decreases self.left,
        {
            let i: usize = self.idx;
            let n: usize = active.len();
            self.idx = if i + 1 == n {
                0
            } else {
                i + 1
            };
            proof {
                if i + 1 == n {
                    assert((i + 1) % n as int == 0) by (nonlinear_arith)
                        requires
                            i + 1 == n,
                            n > 0,
                    ;
                } else {
                    assert((i + 1) % n as int == i + 1) by (nonlinear_arith)
                        requires
                            0 <= i + 1 < n,
                    ;
                }
            }
            self.left = self.left - 1;
            if active[i].finished {
                continue;
            }
            let cursor: usize = match active[i].phase {
                Phase::Prefill { cursor } => cursor,
                Phase::Decode { .. } => {
                    continue;
                },
            };
            let end: usize = active[i].prompt_ids.len() - 1;
            if cursor >= end {
                let last: u32 = active[i].prompt_ids[end];
                let ghost a = active@[i as int];
                let ghost all = active@;
                active[i].phase = Phase::Decode { last_token: last };
                assert(active@ =~= all.update(
                    i as int,
                    (Active { phase: Phase::Decode { last_token: a.prompt_ids@.last() }, ..a }),
                ));
                continue;
            }
            let cap: usize = if self.decoding && cfg.prefill_chunk < self.budget {
                cfg.prefill_chunk
            } else {
                self.budget
            };
            let lacking: usize = end - cursor;
            let take: usize = if cap < lacking {
                cap
            } else {
                lacking
            };
            return Some(PrefillJob { index: i, from: cursor, take });
        }
        None
    }

    /// Ends a chunk: it failed, or the slot grows by it and the request goes on behind it.
    pub fn end_job(
        &mut self,
        active: &mut Vec<Active>,
        pool: &mut KvPool,
        job: PrefillJob,
        failure: Option<String>,
    ) -> (r: Option<StreamEvent>)
        requires
            fleet(old(active)@, *old(pool)),
            job.index < old(active)@.len(),
            !old(active)@[job.index as int].finished,
            old(active)@[job.index as int].phase == (Phase::Prefill { cursor: job.from }),
            job.from + job.take < old(active)@[job.index as int].prompt_ids@.len(),
        ensures
            fleet(final(active)@, *final(pool)),
            final(active)@.len() == old(active)@.len(),
            final(self).idx == old(self).idx,
            final(self).left == old(self).left,
            final(self).decoding == old(self).decoding,
            ({
                let i = job.index as int;
                let a = old(active)@[i];
                let end = a.prompt_ids@.len() - 1;
                let went = job.from + job.take;
                match failure {
                    Some(m) => {
                        &&& r matches Some(e) && e@ == EventV::Error(m@)
                        &&& final(active)@ == old(active)@.update(i, a.over())
                        &&& *final(pool) == *old(pool)
                        &&& final(self).budget == old(self).budget
                    },
                    None => match old(pool).grown(a.slot, job.take as nat) {
                        Err(e) => {
                            &&& r matches Some(v) && v@ == EventV::Error(e.text())
                            &&& final(active)@ == old(active)@.update(i, a.over())
                            &&& final(pool).grew(*old(pool), a.slot, Err(e))
                            &&& final(self).budget == old(self).budget
                        },
                        Ok(n) => {
                            &&& r is None
                            &&& final(pool).grew(*old(pool), a.slot, Ok(n))
                            &&& final(self).budget == (if old(self).budget >= job.take {
                                old(self).budget - job.take
                            } else {
                                0
                            })
                            &&& final(active)@ == old(active)@.update(
                                i,
                                (Active {
                                    phase: if went >= end {
                                        Phase::Decode { last_token: a.prompt_ids@.last() }
                                    } else {
                                        Phase::Prefill { cursor: went as usize }
                                    },
                                    ..a
                                }),
                            )
                        },
                    },
                }
            }),
    {
        let i: usize = job.index;
        let ghost all = active@;
        let ghost p0 = *pool;
        let ghost a = active@[i as int];
        if let Some(m) = failure {
            active[i].finished = true;
            proof {
                assert(active@ =~= all.update(i as int, a.over()));
                lemma_fleet_update(all, *pool, i as int, a.over());
            }
            return Some(StreamEvent::Error(m));
        }
        match pool.bump_len_by(active[i].slot, job.take) {
            Err(e) => {
                active[i].finished = true;
                proof {
                    assert(active@ =~= all.update(i as int, a.over()));
                    lemma_fleet_same(all, p0, *pool);
                    lemma_fleet_update(all, *pool, i as int, a.over());
                }
                Some(StreamEvent::Error(e.message()))
            },
            Ok(_) => {
                self.budget = if self.budget >= job.take {
                    self.budget - job.take
                } else {
                    0
                };
                let went: usize = job.from + job.take;
                let end: usize = active[i].prompt_ids.len() - 1;
                let phase: Phase = if went >= end {
                    Phase::Decode { last_token: active[i].prompt_ids[end] }
                } else {
                    Phase::Prefill { cursor: went }
                };
                active[i].phase = phase;
                proof {
                    let b = Active { phase, ..a };
                    assert(active@ =~= all.update(i as int, b));
                    lemma_step_keeps(all, p0, *pool, i as int, b);
                }
                None
            },
        }
    }
}

/// A pool with the same slots is as consistent.
proof fn lemma_fleet_same(active: Seq<Active>, p: KvPool, q: KvPool)
    requires
        fleet(active, p),
        q.wf(),
        q.slots@ == p.slots@,
    ensures
        fleet(active, q),
{
    assert forall|i: int| 0 <= i < active.len() implies (#[trigger] active[i]).linked(q) by {
        assert(active[i].linked(p));
    }
}

/// A request whose slot changes with it, or that is over, keeps all consistent.
pub proof fn lemma_step_keeps(active: Seq<Active>, p: KvPool, q: KvPool, i: int, b: Active)
    requires
        fleet(active, p),
        0 <= i < active.len(),
        q.wf(),
        q.slots@.len() == p.slots@.len(),
        forall|k: int|
            0 <= k < p.slots@.len() && k != active[i].slot.0 ==> #[trigger] q.slots@[k]
                == p.slots@[k],
        b.wf(),
        b.slot == active[i].slot,
        b.linked(q),
    ensures
        fleet(active.update(i, b), q),
{
    let u = active.update(i, b);
    assert forall|j: int| 0 <= j < u.len() implies (#[trigger] u[j]).linked(q) by {
        if j != i {
            assert(active[j].linked(p));
            assert(active[j].slot != active[i].slot) by {
                if j < i {
                    assert(active[j].slot != active[i].slot);
                } else {
                    assert(active[i].slot != active[j].slot);
                }
            }
            let k = active[j].slot.0 as int;
            assert(q.slots@[k] == p.slots@[k]);
        }
    }
    assert forall|k: int|
        0 <= k < q.slots@.len() && (#[trigger] q.slots@[k]).occupied implies owned(u, k) by {
        if k == active[i].slot.0 {
            assert(u[i].slot.0 == k);
        } else {
            assert(p.slots@[k].occupied);
            let j = choose|j: int| 0 <= j < active.len() && (#[trigger] active[j]).slot.0 == k;
            assert(u[j].slot.0 == k);
        }
    }
}

} // verus!
