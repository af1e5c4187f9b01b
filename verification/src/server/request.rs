//! Requests for a chat completion: what is refused, and what becomes of the rest.

use tokenizers::Tokenizer;

use vstd::prelude::*;
use vstd::string::*;

use crate::gguf::tokenizer::{
    decode_tokens, encode_prompt, encoded, made_of, takes_one_text, text_of_tokens,
};
use crate::server::channel::{answer_of, split_reasoning_and_content};
use crate::server::chat::{
    apply_chat_template, awaits, awaits_tool_call, is_text, messages_view, prompt_of, ChatMessage,
    Tool, ToolCall,
};
use crate::server::json::Json;
use crate::server::response::{
    chunk_json, chunk_text, completion_with_text, completion_with_tools, error_event,
    error_event_text, events_view, held_events, held_stream, usage_of, ChatCompletionResponse,
    Usage,
};
use crate::server::scheduler::{EventV, InferenceRequest, StreamEvent};
use crate::server::tools::{
    are_calls, infer_tool_calls_without_generation, instant_calls, resolve_tool_calls,
    resolved_calls,
};
use crate::text::{dec, dec_usize, texts};

verus! {

/// Tokens of an answer where the request does not say.
pub const DEFAULT_MAX_TOKENS: usize = 1024;

/// The bit pattern of 1, the temperature where the request does not say.
pub const DEFAULT_TEMPERATURE: u32 = 0x3F800000;

/// The bit pattern of 5, the greatest temperature.
pub const MAX_TEMPERATURE: u32 = 0x40A00000;

/// The bit pattern of 1, the greatest least probability.
pub const MAX_MIN_P: u32 = 0x3F800000;

/// The bit pattern of nought with a minus sign.
pub const MINUS_ZERO: u32 = 0x80000000;

/// The temperature where the request does not say, as a bit pattern.
pub fn default_temperature() -> (r: u32)
    ensures
        r == DEFAULT_TEMPERATURE,
{
    DEFAULT_TEMPERATURE
}

/// The least probability where the request does not say, as a bit pattern.
pub fn default_min_p() -> (r: u32)
    ensures
        r == crate::gemma::load::DEFAULT_MIN_P,
{
    crate::gemma::load::DEFAULT_MIN_P
}

/// Whether a bit pattern is a number from nought to the number with the pattern `top`: positive
/// numbers order as their patterns do, and nought has two.
#[verifier::allow_in_spec]
pub fn is_between_zero_and(bits: u32, top: u32) -> bool
    returns
        bits <= top || bits == MINUS_ZERO,
{
    bits <= top || bits == MINUS_ZERO
}

/// Stop texts: one, or several.
#[derive(Debug)]
pub enum StopArg {
    One(String),
    Many(Vec<String>),
}

impl StopArg {
    pub open spec fn list(self) -> Seq<Seq<char>> {
        match self {
            StopArg::One(s) => seq![s@],
            StopArg::Many(v) => texts(v@),
        }
    }

    pub fn into_vec(self) -> (r: Vec<String>)
        ensures
            texts(r@) == self.list(),
    {
        match self {
            StopArg::One(s) => {
                let mut v: Vec<String> = Vec::new();
                v.push(s);
                assert(texts(v@) =~= seq![s@]);
                v
            },
            StopArg::Many(v) => v,
        }
    }
}

/// One part of the content of a message.
#[derive(Debug)]
pub struct ContentPart {
    pub kind: Option<String>,
    pub text: Option<String>,
}

/// The content of a message as it is sent.
#[derive(Debug)]
pub enum ContentField {
    Text(String),
    Parts(Vec<ContentPart>),
}

/// The text of a part: none where it is of another kind.
pub open spec fn part_text(p: ContentPart) -> Seq<char> {
    let is_text = match p.kind {
        Some(k) => k@ == "text"@,
        None => true,
    };
    match p.text {
        Some(t) if is_text => t@,
        _ => Seq::empty(),
    }
}

/// The texts of parts, one behind the other.
pub open spec fn parts_text(parts: Seq<ContentPart>) -> Seq<char>
    decreases parts.len(),
{
    if parts.len() == 0 {
        Seq::empty()
    } else {
        parts_text(parts.drop_last()) + part_text(parts.last())
    }
}

/// The content of a message: a text, or the texts of its parts.
pub fn deserialize_content(field: Option<ContentField>) -> (r: Option<String>)
    ensures
        match field {
            None => r is None,
            Some(ContentField::Text(s)) => r == Some(s),
            Some(ContentField::Parts(p)) => r matches Some(s) && s@ == parts_text(p@),
        },
{
    match field {
        None => None,
        Some(ContentField::Text(s)) => Some(s),
        Some(ContentField::Parts(parts)) => {
            let mut out: String = String::new();
            assert(out@ =~= Seq::<char>::empty());
            let mut i: usize = 0;
            assert(parts@.take(0) =~= Seq::<ContentPart>::empty());
            while i < parts.len()
                invariant
                    i <= parts@.len(),
                    out@ == parts_text(parts@.take(i as int)),
                decreases parts@.len() - i,
            {
                assert(parts@.take(i + 1).drop_last() =~= parts@.take(i as int));
                let shown: bool = match &parts[i].kind {
                    Some(k) => is_text(k.as_str(), "text"),
                    None => true,
                };
                let ghost before = out@;
                if shown {
                    if let Some(t) = &parts[i].text {
                        out = out.concat(t.as_str());
                    }
                }
                assert(out@ =~= before + part_text(parts@[i as int]));
                i += 1;
            }
            assert(parts@.take(parts@.len() as int) =~= parts@);
            Some(out)
        },
    }
}

/// A request for a chat completion. Floating-point values are bit patterns.
#[derive(Debug)]
pub struct ChatCompletionRequest {
    pub model: Option<String>,
    pub messages: Vec<ChatMessage>,
    pub max_tokens: Option<usize>,
    pub max_completion_tokens: Option<usize>,
    pub temperature: u32,
    pub min_p: u32,
    pub stream: bool,
    pub stop: Option<StopArg>,
    pub include_usage: Option<bool>,
    pub tools: Option<Vec<Tool>>,
    pub tool_choice: Option<Json>,
}

/// A refused request: a status, a code and a message.
#[derive(Debug)]
pub struct ApiError {
    pub status: u16,
    pub code: &'static str,
    pub message: String,
}

pub ghost struct ApiErrorV {
    pub status: u16,
    pub code: Seq<char>,
    pub message: Seq<char>,
}

impl View for ApiError {
    type V = ApiErrorV;

    open spec fn view(&self) -> ApiErrorV {
        ApiErrorV { status: self.status, code: self.code@, message: self.message@ }
    }
}

pub fn api_err(status: u16, code: &'static str, message: &str) -> (r: ApiError)
    ensures
        r@ == (ApiErrorV { status, code: code@, message: message@ }),
{
    ApiError { status, code, message: String::from_str(message) }
}

/// What the server knows of the model it serves.
#[derive(Debug)]
pub struct ServedModel {
    pub model_id: String,
    pub max_seq: usize,
    pub model_ctx: usize,
}

/// What is wrong with a request before it is looked at as text.
pub open spec fn request_fault(req: ChatCompletionRequest) -> Option<ApiErrorV> {
    if req.messages@.len() == 0 {
        Some(
            ApiErrorV {
                status: 400,
                code: "empty_messages"@,
                message: "messages must be non-empty"@,
            },
        )
    } else if !is_between_zero_and(req.temperature, MAX_TEMPERATURE) {
        Some(
            ApiErrorV {
                status: 400,
                code: "invalid_temperature"@,
                message: "temperature must be between 0 and 5"@,
            },
        )
    } else if !is_between_zero_and(req.min_p, MAX_MIN_P) {
        Some(
            ApiErrorV {
                status: 400,
                code: "invalid_min_p"@,
                message: "min_p must be between 0 and 1"@,
            },
        )
    } else {
        None
    }
}

/// Checks a request before it is looked at as text.
pub fn check_request(req: &ChatCompletionRequest) -> (r: Result<(), ApiError>)
    ensures
        match r {
            Ok(_) => request_fault(*req) is None,
            Err(e) => request_fault(*req) == Some(e@),
        },
{
    if req.messages.is_empty() {
        Err(api_err(400, "empty_messages", "messages must be non-empty"))
    } else if !is_between_zero_and(req.temperature, MAX_TEMPERATURE) {
        Err(api_err(400, "invalid_temperature", "temperature must be between 0 and 5"))
    } else if !is_between_zero_and(req.min_p, MAX_MIN_P) {
        Err(api_err(400, "invalid_min_p", "min_p must be between 0 and 1"))
    } else {
        Ok(())
    }
}

/// The message for a prompt that is too long.
pub open spec fn too_long(n: nat, max_seq: nat, ctx: nat) -> Seq<char> {
    "prompt is "@ + dec(n) + " tokens; max_seq is "@ + dec(max_seq)
        + " (need room for at least one decode step). Restart with --max-seq N (model context_length is "@
        + dec(ctx) + ")."@
}

/// What is wrong with the token numbers of a prompt: there are none, or no room for one more.
pub open spec fn prompt_fault(st: ServedModel, ids: Result<Seq<u32>, Seq<char>>) -> Option<
    ApiErrorV,
> {
    match ids {
        Err(m) => Some(ApiErrorV { status: 400, code: "tokenizer_error"@, message: m }),
        Ok(v) => if v.len() == 0 {
            Some(
                ApiErrorV {
                    status: 400,
                    code: "tokenizer_error"@,
                    message: "prompt encoded to zero tokens"@,
                },
            )
        } else if v.len() + 1 > st.max_seq {
            Some(
                ApiErrorV {
                    status: 400,
                    code: "context_length_exceeded"@,
                    message: too_long(v.len(), st.max_seq as nat, st.model_ctx as nat),
                },
            )
        } else {
            None
        },
    }
}

fn check_prompt(st: &ServedModel, ids: Result<Vec<u32>, String>) -> (r: Result<Vec<u32>, ApiError>)
    ensures
        ({
            let v = match ids {
                Ok(x) => Ok(x@),
                Err(m) => Err(m@),
            };
            match r {
                Ok(x) => ids == Ok::<Vec<u32>, String>(x) && prompt_fault(*st, v) is None,
                Err(e) => prompt_fault(*st, v) == Some(e@),
            }
        }),
{
    let v = match ids {
        Ok(v) => v,
        Err(m) => {
            return Err(api_err(400, "tokenizer_error", m.as_str()));
        },
    };
    if v.is_empty() {
        return Err(api_err(400, "tokenizer_error", "prompt encoded to zero tokens"));
    }
    if v.len() >= st.max_seq {
        let text = String::from_str("prompt is ").concat(dec_usize(v.len()).as_str()).concat(
            " tokens; max_seq is ",
        ).concat(dec_usize(st.max_seq).as_str()).concat(
            " (need room for at least one decode step). Restart with --max-seq N (model context_length is ",
        ).concat(dec_usize(st.model_ctx).as_str()).concat(").");
        return Err(api_err(400, "context_length_exceeded", text.as_str()));
    }
    Ok(v)
}

/// How many tokens an answer may have: as asked for, at least one, and within the room behind a
/// prompt of `n` tokens.
pub open spec fn token_limit(req: ChatCompletionRequest, max_seq: usize, n: nat) -> int {
    let asked = match (req.max_completion_tokens, req.max_tokens) {
        (Some(m), _) => m,
        (None, Some(m)) => m,
        (None, None) => DEFAULT_MAX_TOKENS,
    };
    let room = max_seq - n;
    let within = if asked < room {
        asked as int
    } else {
        room
    };
    if within < 1 {
        1
    } else {
        within
    }
}

fn limit_tokens(req: &ChatCompletionRequest, max_seq: usize, n: usize) -> (r: usize)
    requires
        n < max_seq,
    ensures
        r == token_limit(*req, max_seq, n as nat),
{
    let asked: usize = match req.max_completion_tokens {
        Some(m) => m,
        None => match req.max_tokens {
            Some(m) => m,
            None => DEFAULT_MAX_TOKENS,
        },
    };
    let room: usize = max_seq - n;
    let within: usize = if asked < room {
        asked
    } else {
        room
    };
    if within < 1 {
        1
    } else {
        within
    }
}

/// What becomes of a request.
#[derive(Debug)]
pub enum ChatPlan {
    /// Calls that need no generation, and the length of the prompt.
    Calls { calls: Vec<ToolCall>, prompt_tokens: usize },
    /// Tokens are generated; the answer is held back until it is whole where calls may come.
    Generate { job: InferenceRequest, hold_for_tools: bool },
}

/// Whether the request offers tools.
pub open spec fn offers_tools(tools: Option<Vec<Tool>>) -> bool {
    match tools {
        Some(t) => t@.len() > 0,
        None => false,
    }
}

pub open spec fn own_tools(tools: Option<Vec<Tool>>) -> Option<Seq<crate::server::chat::ToolV>> {
    match tools {
        Some(t) => Some(crate::server::chat::tools_view(t@)),
        None => None,
    }
}

pub open spec fn own_choice(c: Option<Json>) -> Option<crate::server::json::JsonV> {
    match c {
        Some(j) => Some(j@),
        None => None,
    }
}

/// The stop texts of a request.
pub open spec fn stops_of(stop: Option<StopArg>) -> Seq<Seq<char>> {
    match stop {
        Some(s) => s.list(),
        None => Seq::empty(),
    }
}

/// Whether this is what becomes of a request whose prompt has the token numbers `ids`.
pub open spec fn is_plan(
    p: ChatPlan,
    st: ServedModel,
    req: ChatCompletionRequest,
    ids: Seq<u32>,
    entropy: u32,
) -> bool {
    let ms = messages_view(req.messages@);
    let wanted = if offers_tools(req.tools) {
        instant_calls(ms, own_tools(req.tools), own_choice(req.tool_choice))
    } else {
        Seq::empty()
    };
    if wanted.len() > 0 {
        p matches ChatPlan::Calls { calls, prompt_tokens } && are_calls(calls@, wanted)
            && prompt_tokens == ids.len()
    } else {
        p matches ChatPlan::Generate { job, hold_for_tools } && {
            &&& job.prompt_ids@ == ids
            &&& job.max_tokens == token_limit(req, st.max_seq, ids.len())
            &&& texts(job.stop@) == stops_of(req.stop)
            &&& job.temperature == req.temperature
            &&& job.min_p == req.min_p
            &&& job.seed == chat_seed(entropy, ids.len() as u32)
            &&& hold_for_tools == (offers_tools(req.tools) && awaits(ms, false))
        }
    }
}

/// The seed of a generation.
pub open spec fn chat_seed(entropy: u32, n: u32) -> u32 {
    (entropy ^ n) | 1
}

/// Decides what becomes of a request that was checked, from the token numbers of its prompt.
pub fn plan_chat(
    st: &ServedModel,
    req: ChatCompletionRequest,
    ids: Result<Vec<u32>, String>,
    entropy: u32,
) -> (r: Result<ChatPlan, ApiError>)
    ensures
        ({
            let v = match ids {
                Ok(x) => Ok(x@),
                Err(m) => Err(m@),
            };
            match r {
                Err(e) => prompt_fault(*st, v) == Some(e@),
                Ok(p) => prompt_fault(*st, v) is None && is_plan(p, *st, req, v->Ok_0, entropy),
            }
        }),
{
    let ids = check_prompt(st, ids)?;
    let n: usize = ids.len();
    let has_tools: bool = match &req.tools {
        Some(t) => t.len() > 0,
        None => false,
    };
    if has_tools {
        let calls = infer_tool_calls_without_generation(
            &req.messages,
            req.tools.as_ref(),
            req.tool_choice.as_ref(),
        );
        if !calls.is_empty() {
            return Ok(ChatPlan::Calls { calls, prompt_tokens: n });
        }
    }
    let max_tokens: usize = limit_tokens(&req, st.max_seq, n);
    let hold_for_tools: bool = has_tools && awaits_tool_call(&req.messages);
    let stop: Vec<String> = match req.stop {
        Some(s) => s.into_vec(),
        None => {
            let v: Vec<String> = Vec::new();
            assert(texts(v@) =~= Seq::<Seq<char>>::empty());
            v
        },
    };
    let seed: u32 = (entropy ^ (n as u32)) | 1;
    Ok(
        ChatPlan::Generate {
            job: InferenceRequest {
                prompt_ids: ids,
                max_tokens,
                stop,
                temperature: req.temperature,
                min_p: req.min_p,
                seed,
            },
            hold_for_tools,
        },
    )
}

/// Decides what becomes of a request: it is checked, its messages become a prompt, and the prompt
/// becomes token numbers.
pub fn handle_chat(
    st: &ServedModel,
    tok: &Tokenizer,
    req: ChatCompletionRequest,
    entropy: u32,
) -> (r: Result<ChatPlan, ApiError>)
    requires
        takes_one_text(made_of(*tok)),
    ensures
        match request_fault(req) {
            Some(e) => r matches Err(x) && x@ == e,
            None => {
                let prompt = prompt_of(
                    messages_view(req.messages@),
                    own_tools(req.tools),
                    own_choice(req.tool_choice),
                );
                let ids = match encoded(made_of(*tok), prompt, true) {
                    Ok(v) => Ok(v),
                    Err(m) => Err("encode failed: "@ + m),
                };
                match r {
                    Err(e) => prompt_fault(*st, ids) == Some(e@),
                    Ok(p) => prompt_fault(*st, ids) is None && is_plan(
                        p,
                        *st,
                        req,
                        ids->Ok_0,
                        entropy,
                    ),
                }
            },
        },
{
    match check_request(&req) {
        Ok(_) => {},
        Err(e) => {
            return Err(e);
        },
    }
    let prompt = apply_chat_template(&req.messages, req.tools.as_ref(), req.tool_choice.as_ref());
    let ids = encode_prompt(tok, prompt.as_str(), true);
    plan_chat(st, req, ids, entropy)
}

/// The model that an answer names: the one asked for, or the one served.
pub fn model_name(req: &ChatCompletionRequest, st: &ServedModel) -> (r: String)
    ensures
        r@ == (match req.model {
            Some(m) => m@,
            None => st.model_id@,
        }),
{
    match &req.model {
        Some(m) => m.clone(),
        None => st.model_id.clone(),
    }
}

/// Whether a stream ends with the number of tokens: unless the request says otherwise.
pub fn wants_usage(req: &ChatCompletionRequest) -> (r: bool)
    ensures
        r == (req.include_usage != Some(false)),
{
    match req.include_usage {
        Some(b) => b,
        None => true,
    }
}

/// Why a generation could not be started: its queue is full, or gone.
pub fn queue_error(full: bool) -> (r: ApiError)
    ensures
        r@ == (if full {
            ApiErrorV {
                status: 429,
                code: "queue_full"@,
                message: "inference queue is full"@,
            }
        } else {
            ApiErrorV {
                status: 500,
                code: "internal_error"@,
                message: "scheduler thread is gone"@,
            }
        }),
{
    if full {
        api_err(429, "queue_full", "inference queue is full")
    } else {
        api_err(500, "internal_error", "scheduler thread is gone")
    }
}

/// What was heard of a generation so far.
#[derive(Debug)]
pub struct Collected {
    pub tokens: Vec<u32>,
    pub finish_reason: String,
    pub prompt_tokens: usize,
    pub completion_tokens: usize,
}

/// Whether to go on listening.
#[derive(Debug)]
pub enum Heard {
    More,
    Done,
    Failed(String),
}

impl Collected {
    pub fn new() -> (r: Collected)
        ensures
            r.tokens@.len() == 0,
            r.finish_reason@ == "stop"@,
            r.prompt_tokens == 0,
            r.completion_tokens == 0,
    {
        Collected {
            tokens: Vec::new(),
            finish_reason: String::from_str("stop"),
            prompt_tokens: 0,
            completion_tokens: 0,
        }
    }

    /// Takes in one event.
    pub fn hear(&mut self, ev: StreamEvent) -> (r: Heard)
        ensures
            match ev@ {
                EventV::Token(t) => {
                    &&& r is More
                    &&& final(self).tokens@ == old(self).tokens@.push(t)
                    &&& final(self).finish_reason == old(self).finish_reason
                    &&& final(self).prompt_tokens == old(self).prompt_tokens
                    &&& final(self).completion_tokens == old(self).completion_tokens
                },
                EventV::Done { finish_reason, prompt_tokens, completion_tokens } => {
                    &&& r is Done
                    &&& final(self).tokens == old(self).tokens
                    &&& final(self).finish_reason@ == finish_reason
                    &&& final(self).prompt_tokens == prompt_tokens
                    &&& final(self).completion_tokens == completion_tokens
                },
                EventV::Error(m) => {
                    &&& r matches Heard::Failed(t) && t@ == m
                    &&& *final(self) == *old(self)
                },
            },
    {
        match ev {
            StreamEvent::Token(t) => {
                self.tokens.push(t);
                Heard::More
            },
            StreamEvent::Done { finish_reason, prompt_tokens, completion_tokens } => {
                self.finish_reason = finish_reason;
                self.prompt_tokens = prompt_tokens;
                self.completion_tokens = completion_tokens;
                Heard::Done
            },
            StreamEvent::Error(m) => Heard::Failed(m),
        }
    }
}

/// Whether this is the answer to a request for which `raw` was generated: its calls, or else its
/// text without reasoning.
pub open spec fn is_answer(
    r: ChatCompletionResponse,
    raw: Seq<char>,
    c: Collected,
    messages: Seq<ChatMessage>,
    tools: Option<Vec<Tool>>,
    choice: Option<Json>,
) -> bool {
    let wanted = if offers_tools(tools) {
        resolved_calls(raw, messages_view(messages), own_tools(tools), own_choice(choice))
    } else {
        Seq::empty()
    };
    &&& r.usage.prompt_tokens == c.prompt_tokens
    &&& r.usage.completion_tokens == c.completion_tokens
    &&& r.usage.total_tokens == c.prompt_tokens + c.completion_tokens
    &&& if wanted.len() > 0 {
        &&& r.tool_calls matches Some(v) && are_calls(v@, wanted)
        &&& r.content is None
        &&& r.reasoning_content is None
        &&& r.finish_reason@ == "tool_calls"@
    } else {
        let reasoning = answer_of(raw).reasoning;
        let content = answer_of(raw).content;
        &&& r.tool_calls is None
        &&& r.content matches Some(t) && t@ == content
        &&& if reasoning.len() == 0 {
            r.reasoning_content is None
        } else {
            r.reasoning_content matches Some(t) && t@ == reasoning
        }
        &&& r.finish_reason == c.finish_reason
    }
}

/// Answers a request from the text that was generated for it.
pub fn answer_text(
    raw: &str,
    c: Collected,
    id: String,
    created: u64,
    model: String,
    messages: &Vec<ChatMessage>,
    tools: &Option<Vec<Tool>>,
    tool_choice: &Option<Json>,
) -> (r: ChatCompletionResponse)
    requires
        c.prompt_tokens + c.completion_tokens <= usize::MAX,
    ensures
        r.id == id && r.created == created && r.model == model,
        is_answer(r, raw@, c, messages@, *tools, *tool_choice),
{
    let has_tools: bool = match tools {
        Some(t) => t.len() > 0,
        None => false,
    };
    if has_tools {
        let calls = resolve_tool_calls(raw, messages, tools.as_ref(), tool_choice.as_ref());
        if !calls.is_empty() {
            return completion_with_tools(
                id,
                created,
                model,
                calls,
                c.prompt_tokens,
                c.completion_tokens,
            );
        }
    }
    let (reasoning, content) = split_reasoning_and_content(raw);
    completion_with_text(
        id,
        created,
        model,
        reasoning,
        content,
        c.finish_reason,
        c.prompt_tokens,
        c.completion_tokens,
    )
}

/// Answers a request from the tokens that were generated for it.
pub fn collect_sync(
    tok: &Tokenizer,
    c: Collected,
    id: String,
    created: u64,
    model: String,
    messages: &Vec<ChatMessage>,
    tools: &Option<Vec<Tool>>,
    tool_choice: &Option<Json>,
) -> (r: ChatCompletionResponse)
    requires
        c.prompt_tokens + c.completion_tokens <= usize::MAX,
    ensures
        r.id == id && r.created == created && r.model == model,
        is_answer(
            r,
            text_of_tokens(made_of(*tok), c.tokens@),
            c,
            messages@,
            *tools,
            *tool_choice,
        ),
{
    let raw = decode_tokens(tok, &c.tokens);
    answer_text(raw.as_str(), c, id, created, model, messages, tools, tool_choice)
}

/// Whether these are the last events of a request whose answer was held back, and for which `raw`
/// was generated.
pub open spec fn is_held_answer(
    events: Seq<Seq<char>>,
    raw: Seq<char>,
    id: Seq<char>,
    created: u64,
    model: Seq<char>,
    messages: Seq<ChatMessage>,
    tools: Option<Vec<Tool>>,
    choice: Option<Json>,
    usage: Option<Usage>,
) -> bool {
    exists|calls: Seq<ToolCall>|
        {
            let wanted = resolved_calls(
                raw,
                messages_view(messages),
                own_tools(tools),
                own_choice(choice),
            );
            &&& are_calls(calls, wanted)
            &&& events == #[trigger] held_stream(
                id,
                created,
                model,
                calls,
                answer_of(raw).content,
                usage,
            )
        }
}

/// The last events of a request whose answer was held back: its calls, or its visible text.
pub fn held_answer(
    raw: &str,
    id: &str,
    created: u64,
    model: &str,
    messages: &Vec<ChatMessage>,
    tools: &Option<Vec<Tool>>,
    tool_choice: &Option<Json>,
    usage: Option<&Usage>,
) -> (r: Vec<String>)
    ensures
        is_held_answer(
            events_view(r@),
            raw@,
            id@,
            created,
            model@,
            messages@,
            *tools,
            *tool_choice,
            match usage {
                Some(u) => Some(*u),
                None => None,
            },
        ),
{
    let calls = resolve_tool_calls(raw, messages, tools.as_ref(), tool_choice.as_ref());
    let (_, visible) = split_reasoning_and_content(raw);
    let events = held_events(id, created, model, &calls, visible.as_str(), usage);
    proof {
        let u = match usage {
            Some(u) => Some(*u),
            None => None,
        };
        assert(events_view(events@) == held_stream(
            id@,
            created,
            model@,
            calls@,
            answer_of(raw@).content,
            u,
        ));
    }
    events
}

/// The event of a stream for something that was heard of a generation: nothing for a token without
/// a text.
pub open spec fn event_text(
    ev: EventV,
    piece: Seq<char>,
    id: Seq<char>,
    created: u64,
    model: Seq<char>,
    include_usage: bool,
) -> Option<Seq<char>> {
    match ev {
        EventV::Token(_) => if piece.len() == 0 {
            None
        } else {
            Some(chunk_text(id, created, model, None, Some(piece), None, None, None))
        },
        EventV::Done { finish_reason, prompt_tokens, completion_tokens } => Some(
            chunk_text(
                id,
                created,
                model,
                None,
                None,
                Some(finish_reason),
                if include_usage {
                    Some(
                        Usage {
                            prompt_tokens,
                            completion_tokens,
                            total_tokens: (prompt_tokens + completion_tokens) as usize,
                        },
                    )
                } else {
                    None
                },
                None,
            ),
        ),
        EventV::Error(m) => Some(error_event_text(m)),
    }
}

/// The event of a stream for something that was heard of a generation. `piece` is the text of a
/// token.
pub fn stream_event(
    ev: &StreamEvent,
    piece: &str,
    id: &str,
    created: u64,
    model: &str,
    include_usage: bool,
) -> (r: Option<String>)
    requires
        ev@ matches EventV::Done { prompt_tokens, completion_tokens, .. } ==> prompt_tokens
            + completion_tokens <= usize::MAX,
    ensures
        match r {
            Some(t) => event_text(ev@, piece@, id@, created, model@, include_usage) == Some(t@),
            None => event_text(ev@, piece@, id@, created, model@, include_usage) is None,
        },
{
    match ev {
        StreamEvent::Token(_) => if piece.is_empty() {
            None
        } else {
            Some(chunk_json(id, created, model, None, Some(piece), None, None, None))
        },
        StreamEvent::Done { finish_reason, prompt_tokens, completion_tokens } => {
            let usage = usage_of(*prompt_tokens, *completion_tokens);
            let told: Option<&Usage> = if include_usage {
                Some(&usage)
            } else {
                None
            };
            Some(
                chunk_json(
                    id,
                    created,
                    model,
                    None,
                    None,
                    Some(finish_reason.as_str()),
                    told,
                    None,
                ),
            )
        },
        StreamEvent::Error(m) => Some(error_event(m.as_str())),
    }
}

/// A generation that was let through never outgrows its slot, and may always make one token.
pub proof fn lemma_job_fits(
    st: ServedModel,
    req: ChatCompletionRequest,
    ids: Seq<u32>,
    p: ChatPlan,
    entropy: u32,
)
    requires
        prompt_fault(st, Ok(ids)) is None,
        is_plan(p, st, req, ids, entropy),
    ensures
        p matches ChatPlan::Generate { job, .. } ==> {
            &&& job.max_tokens >= 1
            &&& job.prompt_ids@.len() + job.max_tokens <= st.max_seq
            &&& job.prompt_ids@.len() > 0
        },
{
}

/// The seconds and the nanoseconds of the second since the epoch, by `SystemTime::now` and
/// `duration_since`: whatever the time is, the second part is below one second.
#[verifier::external_body]
fn time_since_epoch() -> (r: Option<(u64, u32)>)
    ensures
        r matches Some(t) ==> t.1 < 1_000_000_000,
{
    let now = std::time::SystemTime::now();
    now.duration_since(std::time::UNIX_EPOCH).ok().map(|d| (d.as_secs(), d.subsec_nanos()))
}

/// The seconds of a time since the epoch; nought before it.
pub open spec fn seconds_at(t: Option<(u64, u32)>) -> u64 {
    match t {
        Some((s, _)) => s,
        None => 0,
    }
}

pub fn seconds_of(t: Option<(u64, u32)>) -> (r: u64)
    ensures
        r == seconds_at(t),
{
    match t {
        Some((s, _)) => s,
        None => 0,
    }
}

/// Whether a time since the epoch has less than a second beside its seconds.
pub open spec fn is_time(t: Option<(u64, u32)>) -> bool {
    t matches Some((_, n)) ==> n < 1_000_000_000
}

/// The seconds since the epoch, whatever the time is.
pub fn unix_now() -> (r: u64)
    ensures
        exists|t: Option<(u64, u32)>| is_time(t) && r == #[trigger] seconds_at(t),
{
    seconds_of(time_since_epoch())
}

/// The entropy of a moment: its nanoseconds turned by seven bits, mixed with its microseconds.
pub open spec fn moment_entropy(secs: u64, nanos: u32) -> u32 {
    let ns = ((secs * 1_000_000_000 + nanos) % 0x1_0000_0000) as u32;
    let us = ((secs * 1_000_000 + nanos / 1000) % 0x1_0000_0000) as u32;
    ((ns << 7u32) | (ns >> 25u32)) ^ us
}

pub fn seed_from(secs: u64, nanos: u32) -> (r: u32)
    ensures
        r == moment_entropy(secs, nanos),
{
    let ns: u32 = (((secs as u128) * 1_000_000_000 + (nanos as u128)) % 0x1_0000_0000) as u32;
    let us: u32 = (((secs as u128) * 1_000_000 + ((nanos / 1000) as u128)) % 0x1_0000_0000) as u32;
    ((ns << 7u32) | (ns >> 25u32)) ^ us
}

/// The entropy of a time since the epoch; one before it.
pub open spec fn entropy_at(t: Option<(u64, u32)>) -> u32 {
    match t {
        Some((s, n)) => moment_entropy(s, n),
        None => 1,
    }
}

pub fn seed_of(t: Option<(u64, u32)>) -> (r: u32)
    ensures
        r == entropy_at(t),
{
    match t {
        Some((s, n)) => seed_from(s, n),
        None => 1,
    }
}

/// Entropy from the time, whatever it is.
pub fn id_seed() -> (r: u32)
    ensures
        exists|t: Option<(u64, u32)>| is_time(t) && r == #[trigger] entropy_at(t),
{
    seed_of(time_since_epoch())
}

/// How a server is started. The model file is given by its path.
#[derive(Debug)]
pub struct ServeArgs {
    pub gguf: String,
    pub port: u16,
    pub max_seq: usize,
    pub slots: usize,
}

/// The limits that a server runs under.
#[derive(Clone, Copy, Debug, PartialEq, Eq, Structural)]
pub struct ServeLimits {
    pub max_seq: usize,
    pub slots: usize,
    pub model_ctx: usize,
    /// Whether sequences may grow longer than the model was made for.
    pub beyond_ctx: bool,
}

impl ServeArgs {
    /// Sets the limits: at least 256 positions and one slot.
    pub fn limits(&self, context_length: usize) -> (r: ServeLimits)
        ensures
            r.max_seq == (if self.max_seq < 256 {
                256
            } else {
                self.max_seq
            }),
            r.slots == (if self.slots < 1 {
                1
            } else {
                self.slots
            }),
            r.model_ctx == (if context_length < 256 {
                256
            } else {
                context_length
            }),
            r.beyond_ctx == (r.max_seq > r.model_ctx),
    {
        let max_seq: usize = if self.max_seq < 256 {
            256
        } else {
            self.max_seq
        };
        let model_ctx: usize = if context_length < 256 {
            256
        } else {
            context_length
        };
        ServeLimits {
            max_seq,
            slots: if self.slots < 1 {
                1
            } else {
                self.slots
            },
            model_ctx,
            beyond_ctx: max_seq > model_ctx,
        }
    }
}

} // verus!
