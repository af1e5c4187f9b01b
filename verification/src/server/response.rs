//! What the server answers: bodies and stream events as JSON text.

use vstd::prelude::*;
use vstd::string::*;

use crate::server::chat::ToolCall;
use crate::server::json::{
    field_view, fields_view, items_view, json_written, write_json, Field, FieldV, Json, JsonV,
};
use crate::text::{dec, dec_text, dec_usize};

verus! {

/// How many tokens a request took.
#[derive(Clone, Copy, Debug, PartialEq, Eq, Structural)]
pub struct Usage {
    pub prompt_tokens: usize,
    pub completion_tokens: usize,
    pub total_tokens: usize,
}

/// Counts the tokens of a request.
pub fn usage_of(prompt_tokens: usize, completion_tokens: usize) -> (r: Usage)
    requires
        prompt_tokens + completion_tokens <= usize::MAX,
    ensures
        r.prompt_tokens == prompt_tokens,
        r.completion_tokens == completion_tokens,
        r.total_tokens == prompt_tokens + completion_tokens,
{
    Usage { prompt_tokens, completion_tokens, total_tokens: prompt_tokens + completion_tokens }
}

/// A text as a JSON string.
pub open spec fn quoted(s: Seq<char>) -> Seq<char> {
    json_written(JsonV::Str(s))
}

fn quote(s: &str) -> (r: String)
    ensures
        r@ == quoted(s@),
{
    write_json(&Json::Str(String::from_str(s)))
}

pub open spec fn usage_text(u: Usage) -> Seq<char> {
    "{\"prompt_tokens\":"@ + dec(u.prompt_tokens as nat) + ",\"completion_tokens\":"@ + dec(
        u.completion_tokens as nat,
    ) + ",\"total_tokens\":"@ + dec(u.total_tokens as nat) + "}"@
}

fn write_usage(u: &Usage) -> (r: String)
    ensures
        r@ == usage_text(*u),
{
    String::from_str("{\"prompt_tokens\":").concat(dec_usize(u.prompt_tokens).as_str()).concat(
        ",\"completion_tokens\":",
    ).concat(dec_usize(u.completion_tokens).as_str()).concat(",\"total_tokens\":").concat(
        dec_usize(u.total_tokens).as_str(),
    ).concat("}")
}

/// One more member of an object under construction, with a comma before it unless it is the first.
pub open spec fn member(acc: Seq<char>, key: Seq<char>, value: Option<Seq<char>>) -> Seq<char> {
    match value {
        None => acc,
        Some(v) => (if acc.len() == 0 {
            acc
        } else {
            acc + ","@
        }) + key + v,
    }
}

fn add_member(acc: String, key: &str, value: Option<String>) -> (r: String)
    ensures
        r@ == member(
            acc@,
            key@,
            match value {
                Some(v) => Some(v@),
                None => None,
            },
        ),
{
    match value {
        None => acc,
        Some(v) => if acc.as_str().is_empty() {
            acc.concat(key).concat(v.as_str())
        } else {
            acc.concat(",").concat(key).concat(v.as_str())
        },
    }
}

pub open spec fn opt_view(s: Option<&str>) -> Option<Seq<char>> {
    match s {
        Some(t) => Some(t@),
        None => None,
    }
}

pub open spec fn opt_quoted(s: Option<Seq<char>>) -> Option<Seq<char>> {
    match s {
        Some(t) => Some(quoted(t)),
        None => None,
    }
}

fn quote_opt(s: Option<&str>) -> (r: Option<String>)
    ensures
        match r {
            Some(t) => opt_quoted(opt_view(s)) == Some(t@),
            None => opt_quoted(opt_view(s)) is None,
        },
{
    match s {
        Some(t) => Some(quote(t)),
        None => None,
    }
}

/// One chunk of a stream: what it adds to the message, and why the message is over, if it is.
pub open spec fn chunk_text(
    id: Seq<char>,
    created: u64,
    model: Seq<char>,
    role: Option<Seq<char>>,
    content: Option<Seq<char>>,
    finish: Option<Seq<char>>,
    usage: Option<Usage>,
    calls: Option<JsonV>,
) -> Seq<char> {
    let delta = member(
        member(
            member(Seq::empty(), "\"role\":"@, opt_quoted(role)),
            "\"content\":"@,
            opt_quoted(content),
        ),
        "\"tool_calls\":"@,
        match calls {
            Some(j) => Some(json_written(j)),
            None => None,
        },
    );
    "{\"id\":"@ + quoted(id) + ",\"object\":\"chat.completion.chunk\",\"created\":"@ + dec(
        created as nat,
    ) + ",\"model\":"@ + quoted(model) + ",\"choices\":[{\"index\":0,\"delta\":{"@ + delta
        + "},\"finish_reason\":"@ + (match finish {
        Some(f) => quoted(f),
        None => "null"@,
    }) + "}]"@ + (match usage {
        Some(u) => ",\"usage\":"@ + usage_text(u),
        None => ""@,
    }) + "}"@
}

pub fn chunk_json(
    id: &str,
    created: u64,
    model: &str,
    role: Option<&str>,
    content: Option<&str>,
    finish: Option<&str>,
    usage: Option<&Usage>,
    tool_calls: Option<&Json>,
) -> (r: String)
    ensures
        r@ == chunk_text(
            id@,
            created,
            model@,
            opt_view(role),
            opt_view(content),
            opt_view(finish),
            match usage {
                Some(u) => Some(*u),
                None => None,
            },
            match tool_calls {
                Some(j) => Some(j@),
                None => None,
            },
        ),
{
    let empty = String::new();
    assert(empty@ =~= Seq::<char>::empty());
    let calls: Option<String> = match tool_calls {
        Some(j) => Some(write_json(j)),
        None => None,
    };
    let delta = add_member(
        add_member(
            add_member(empty, "\"role\":", quote_opt(role)),
            "\"content\":",
            quote_opt(content),
        ),
        "\"tool_calls\":",
        calls,
    );
    let reason: String = match finish {
        Some(f) => quote(f),
        None => String::from_str("null"),
    };
    let tail: String = match usage {
        Some(u) => String::from_str(",\"usage\":").concat(write_usage(u).as_str()),
        None => String::from_str(""),
    };
    String::from_str("{\"id\":").concat(quote(id).as_str()).concat(
        ",\"object\":\"chat.completion.chunk\",\"created\":",
    ).concat(dec_text(created).as_str()).concat(",\"model\":").concat(quote(model).as_str()).concat(
        ",\"choices\":[{\"index\":0,\"delta\":{",
    ).concat(delta.as_str()).concat("},\"finish_reason\":").concat(reason.as_str()).concat(
        "}]",
    ).concat(tail.as_str()).concat("}")
}

/// A member of an object.
pub open spec fn fv(key: Seq<char>, value: JsonV) -> FieldV {
    FieldV { key, value }
}

/// The first announcement of a call in a stream: its name, with arguments still to come.
pub open spec fn call_opening(
    index: usize,
    id: Seq<char>,
    kind: Seq<char>,
    name: Seq<char>,
) -> JsonV {
    JsonV::Array(
        Seq::<JsonV>::empty().push(
            JsonV::Object(
                Seq::<FieldV>::empty().push(
                    fv("index"@, JsonV::Number(dec(index as nat))),
                ).push(fv("id"@, JsonV::Str(id))).push(fv("type"@, JsonV::Str(kind))).push(
                    fv(
                        "function"@,
                        JsonV::Object(
                            Seq::<FieldV>::empty().push(fv("name"@, JsonV::Str(name))).push(
                                fv("arguments"@, JsonV::Str(""@)),
                            ),
                        ),
                    ),
                ),
            ),
        ),
    )
}

/// The arguments of a call in a stream.
pub open spec fn call_arguments(index: usize, arguments: Seq<char>) -> JsonV {
    JsonV::Array(
        Seq::<JsonV>::empty().push(
            JsonV::Object(
                Seq::<FieldV>::empty().push(
                    fv("index"@, JsonV::Number(dec(index as nat))),
                ).push(
                    fv(
                        "function"@,
                        JsonV::Object(
                            Seq::<FieldV>::empty().push(
                                fv("arguments"@, JsonV::Str(arguments)),
                            ),
                        ),
                    ),
                ),
            ),
        ),
    )
}

fn add_field(v: &mut Vec<Field>, key: &str, value: Json)
    ensures
        fields_view(final(v)@) == fields_view(old(v)@).push(fv(key@, value@)),
{
    let ghost before = fields_view(v@);
    let f = Field { key: String::from_str(key), value };
    v.push(f);
    assert(field_view(f) == fv(key@, value@));
    assert(fields_view(v@) =~= before.push(fv(key@, value@)));
}

fn no_fields() -> (r: Vec<Field>)
    ensures
        fields_view(r@) == Seq::<FieldV>::empty(),
{
    let v: Vec<Field> = Vec::new();
    assert(fields_view(v@) =~= Seq::<FieldV>::empty());
    v
}

fn one_item(j: Json) -> (r: Json)
    ensures
        r@ == JsonV::Array(Seq::<JsonV>::empty().push(j@)),
{
    let mut v: Vec<Json> = Vec::new();
    v.push(j);
    assert(items_view(v@) =~= Seq::<JsonV>::empty().push(j@));
    Json::Array(v)
}

fn open_call(index: usize, call: &ToolCall) -> (r: Json)
    ensures
        r@ == call_opening(index, call.id@, call.call_type@, call.function.name@),
{
    let mut f = no_fields();
    add_field(&mut f, "name", Json::Str(call.function.name.clone()));
    add_field(&mut f, "arguments", Json::Str(String::from_str("")));
    let mut o = no_fields();
    add_field(&mut o, "index", Json::Number(dec_usize(index)));
    add_field(&mut o, "id", Json::Str(call.id.clone()));
    add_field(&mut o, "type", Json::Str(call.call_type.clone()));
    add_field(&mut o, "function", Json::Object(f));
    one_item(Json::Object(o))
}

fn fill_call(index: usize, call: &ToolCall) -> (r: Json)
    ensures
        r@ == call_arguments(index, call.function.arguments@),
{
    let mut f = no_fields();
    add_field(&mut f, "arguments", Json::Str(call.function.arguments.clone()));
    let mut o = no_fields();
    add_field(&mut o, "index", Json::Number(dec_usize(index)));
    add_field(&mut o, "function", Json::Object(f));
    one_item(Json::Object(o))
}

/// Texts behind others.
pub open spec fn events_view(v: Seq<String>) -> Seq<Seq<char>> {
    v.map_values(|s: String| s@)
}

fn add_event(v: &mut Vec<String>, s: String)
    ensures
        events_view(final(v)@) == events_view(old(v)@).push(s@),
{
    let ghost before = events_view(v@);
    v.push(s);
    assert(events_view(v@) =~= before.push(s@));
}

/// The stream events of the first `n` calls, two for each, behind `acc`.
pub open spec fn call_events(
    acc: Seq<Seq<char>>,
    id: Seq<char>,
    created: u64,
    model: Seq<char>,
    calls: Seq<ToolCall>,
    n: nat,
) -> Seq<Seq<char>>
    decreases n,
{
    if n == 0 {
        acc
    } else {
        let i = (n - 1) as usize;
        let c = calls[n - 1];
        call_events(acc, id, created, model, calls, (n - 1) as nat).push(
            chunk_text(
                id,
                created,
                model,
                None,
                None,
                None,
                None,
                Some(call_opening(i, c.id@, c.call_type@, c.function.name@)),
            ),
        ).push(
            chunk_text(
                id,
                created,
                model,
                None,
                None,
                None,
                None,
                Some(call_arguments(i, c.function.arguments@)),
            ),
        )
    }
}

pub fn tool_call_sse_events(
    events: &mut Vec<String>,
    id: &str,
    created: u64,
    model: &str,
    calls: &Vec<ToolCall>,
)
    ensures
        events_view(final(events)@) == call_events(
            events_view(old(events)@),
            id@,
            created,
            model@,
            calls@,
            calls@.len(),
        ),
{
    let ghost start = events_view(events@);
    let mut i: usize = 0;
    while i < calls.len()
        invariant
            i <= calls@.len(),
            events_view(events@) == call_events(start, id@, created, model@, calls@, i as nat),
        decreases calls@.len() - i,
    {
        let a = open_call(i, &calls[i]);
        add_event(events, chunk_json(id, created, model, None, None, None, None, Some(&a)));
        let b = fill_call(i, &calls[i]);
        add_event(events, chunk_json(id, created, model, None, None, None, None, Some(&b)));
        i += 1;
    }
}

/// The stream of a message that is nothing but calls.
pub open spec fn calls_stream(
    id: Seq<char>,
    created: u64,
    model: Seq<char>,
    calls: Seq<ToolCall>,
    usage: Option<Usage>,
) -> Seq<Seq<char>> {
    call_events(
        Seq::<Seq<char>>::empty().push(
            chunk_text(id, created, model, Some("assistant"@), None, None, None, None),
        ),
        id,
        created,
        model,
        calls,
        calls.len(),
    ).push(
        chunk_text(id, created, model, None, None, Some("tool_calls"@), usage, None),
    ).push("[DONE]"@)
}

pub fn stream_tool_calls_only(
    id: &str,
    created: u64,
    model: &str,
    calls: &Vec<ToolCall>,
    include_usage: bool,
    prompt_tokens: usize,
) -> (r: Vec<String>)
    ensures
        events_view(r@) == calls_stream(
            id@,
            created,
            model@,
            calls@,
            if include_usage {
                Some(
                    Usage {
                        prompt_tokens,
                        completion_tokens: 0,
                        total_tokens: prompt_tokens,
                    },
                )
            } else {
                None
            },
        ),
{
    let mut events: Vec<String> = Vec::new();
    assert(events_view(events@) =~= Seq::<Seq<char>>::empty());
    add_event(
        &mut events,
        chunk_json(id, created, model, Some("assistant"), None, None, None, None),
    );
    tool_call_sse_events(&mut events, id, created, model, calls);
    let usage = Usage { prompt_tokens, completion_tokens: 0, total_tokens: prompt_tokens };
    let told: Option<&Usage> = if include_usage {
        Some(&usage)
    } else {
        None
    };
    add_event(
        &mut events,
        chunk_json(id, created, model, None, None, Some("tool_calls"), told, None),
    );
    add_event(&mut events, String::from_str("[DONE]"));
    events
}

/// The last events of a message that was held back until it was whole: its calls, or its visible
/// text, and why it is over.
pub open spec fn held_stream(
    id: Seq<char>,
    created: u64,
    model: Seq<char>,
    calls: Seq<ToolCall>,
    visible: Seq<char>,
    usage: Option<Usage>,
) -> Seq<Seq<char>> {
    let none = Seq::<Seq<char>>::empty();
    if calls.len() > 0 {
        call_events(none, id, created, model, calls, calls.len()).push(
            chunk_text(id, created, model, None, None, Some("tool_calls"@), usage, None),
        )
    } else {
        let shown = if visible.len() > 0 {
            none.push(chunk_text(id, created, model, None, Some(visible), None, None, None))
        } else {
            none
        };
        shown.push(chunk_text(id, created, model, None, None, Some("stop"@), usage, None))
    }
}

pub fn held_events(
    id: &str,
    created: u64,
    model: &str,
    calls: &Vec<ToolCall>,
    visible: &str,
    usage: Option<&Usage>,
) -> (r: Vec<String>)
    ensures
        events_view(r@) == held_stream(
            id@,
            created,
            model@,
            calls@,
            visible@,
            match usage {
                Some(u) => Some(*u),
                None => None,
            },
        ),
{
    let mut events: Vec<String> = Vec::new();
    assert(events_view(events@) =~= Seq::<Seq<char>>::empty());
    if calls.len() > 0 {
        tool_call_sse_events(&mut events, id, created, model, calls);
        add_event(
            &mut events,
            chunk_json(id, created, model, None, None, Some("tool_calls"), usage, None),
        );
    } else {
        if !visible.is_empty() {
            add_event(
                &mut events,
                chunk_json(id, created, model, None, Some(visible), None, None, None),
            );
        }
        add_event(
            &mut events,
            chunk_json(id, created, model, None, None, Some("stop"), usage, None),
        );
    }
    events
}

/// The event for an error in a stream.
pub open spec fn error_event_text(message: Seq<char>) -> Seq<char> {
    "{\"error\":{\"message\":"@ + quoted(message)
        + ",\"type\":\"internal_error\",\"code\":\"internal_error\"}}"@
}

pub fn error_event(message: &str) -> (r: String)
    ensures
        r@ == error_event_text(message@),
{
    String::from_str("{\"error\":{\"message\":").concat(quote(message).as_str()).concat(
        ",\"type\":\"internal_error\",\"code\":\"internal_error\"}}",
    )
}

/// The body for a refused request.
pub open spec fn refusal_text(code: Seq<char>, message: Seq<char>) -> Seq<char> {
    "{\"error\":{\"message\":"@ + quoted(message) + ",\"type\":\"invalid_request_error\",\"code\":"@
        + quoted(code) + "}}"@
}

pub fn refusal_body(code: &str, message: &str) -> (r: String)
    ensures
        r@ == refusal_text(code@, message@),
{
    String::from_str("{\"error\":{\"message\":").concat(quote(message).as_str()).concat(
        ",\"type\":\"invalid_request_error\",\"code\":",
    ).concat(quote(code).as_str()).concat("}}")
}

/// The list of the one model that is served.
pub open spec fn models_text(id: Seq<char>) -> Seq<char> {
    "{\"object\":\"list\",\"data\":[{\"id\":"@ + quoted(id)
        + ",\"object\":\"model\",\"owned_by\":\"local\"}]}"@
}

pub fn list_models(id: &str) -> (r: String)
    ensures
        r@ == models_text(id@),
{
    String::from_str("{\"object\":\"list\",\"data\":[{\"id\":").concat(quote(id).as_str()).concat(
        ",\"object\":\"model\",\"owned_by\":\"local\"}]}",
    )
}

/// A whole answer.
#[derive(Debug)]
pub struct ChatCompletionResponse {
    pub id: String,
    pub created: u64,
    pub model: String,
    pub content: Option<String>,
    pub reasoning_content: Option<String>,
    pub tool_calls: Option<Vec<ToolCall>>,
    pub finish_reason: String,
    pub usage: Usage,
}

/// An answer that is nothing but calls.
pub fn completion_with_tools(
    id: String,
    created: u64,
    model: String,
    tool_calls: Vec<ToolCall>,
    prompt_tokens: usize,
    completion_tokens: usize,
) -> (r: ChatCompletionResponse)
    requires
        prompt_tokens + completion_tokens <= usize::MAX,
    ensures
        r.id == id && r.created == created && r.model == model,
        r.content is None && r.reasoning_content is None,
        r.tool_calls == Some(tool_calls),
        r.finish_reason@ == "tool_calls"@,
        r.usage.prompt_tokens == prompt_tokens,
        r.usage.completion_tokens == completion_tokens,
        r.usage.total_tokens == prompt_tokens + completion_tokens,
{
    ChatCompletionResponse {
        id,
        created,
        model,
        content: None,
        reasoning_content: None,
        tool_calls: Some(tool_calls),
        finish_reason: String::from_str("tool_calls"),
        usage: usage_of(prompt_tokens, completion_tokens),
    }
}

/// An answer in words; reasoning is left out where there is none.
pub fn completion_with_text(
    id: String,
    created: u64,
    model: String,
    reasoning: String,
    content: String,
    finish_reason: String,
    prompt_tokens: usize,
    completion_tokens: usize,
) -> (r: ChatCompletionResponse)
    requires
        prompt_tokens + completion_tokens <= usize::MAX,
    ensures
        r.id == id && r.created == created && r.model == model,
        r.content == Some(content),
        r.reasoning_content == (if reasoning@.len() == 0 {
            None
        } else {
            Some(reasoning)
        }),
        r.tool_calls is None,
        r.finish_reason == finish_reason,
        r.usage.prompt_tokens == prompt_tokens,
        r.usage.completion_tokens == completion_tokens,
        r.usage.total_tokens == prompt_tokens + completion_tokens,
{
    let told: Option<String> = if reasoning.as_str().is_empty() {
        None
    } else {
        Some(reasoning)
    };
    ChatCompletionResponse {
        id,
        created,
        model,
        content: Some(content),
        reasoning_content: told,
        tool_calls: None,
        finish_reason,
        usage: usage_of(prompt_tokens, completion_tokens),
    }
}

/// A call in an answer.
pub open spec fn call_text(c: ToolCall) -> Seq<char> {
    "{\"id\":"@ + quoted(c.id@) + ",\"type\":"@ + quoted(c.call_type@) + ",\"function\":{\"name\":"@
        + quoted(c.function.name@) + ",\"arguments\":"@ + quoted(c.function.arguments@) + "}}"@
}

fn write_call(c: &ToolCall) -> (r: String)
    ensures
        r@ == call_text(*c),
{
    String::from_str("{\"id\":").concat(quote(c.id.as_str()).as_str()).concat(",\"type\":").concat(
        quote(c.call_type.as_str()).as_str(),
    ).concat(",\"function\":{\"name\":").concat(quote(c.function.name.as_str()).as_str()).concat(
        ",\"arguments\":",
    ).concat(quote(c.function.arguments.as_str()).as_str()).concat("}}")
}

/// The first `n` calls of an answer, with commas between them.
pub open spec fn calls_text(calls: Seq<ToolCall>, n: nat) -> Seq<char>
    decreases n,
{
    if n == 0 {
        Seq::empty()
    } else if n == 1 {
        call_text(calls[0])
    } else {
        calls_text(calls, (n - 1) as nat) + ","@ + call_text(calls[n - 1])
    }
}

fn write_calls(calls: &Vec<ToolCall>) -> (r: String)
    ensures
        r@ == calls_text(calls@, calls@.len()),
{
    let mut s: String = String::new();
    assert(s@ =~= Seq::<char>::empty());
    let mut i: usize = 0;
    while i < calls.len()
        invariant
            i <= calls@.len(),
            s@ == calls_text(calls@, i as nat),
        decreases calls@.len() - i,
    {
        if i == 0 {
            s = write_call(&calls[i]);
        } else {
            s = s.concat(",").concat(write_call(&calls[i]).as_str());
        }
        i += 1;
    }
    s
}

/// A whole answer as JSON text.
pub open spec fn completion_text(c: ChatCompletionResponse) -> Seq<char> {
    "{\"id\":"@ + quoted(c.id@) + ",\"object\":\"chat.completion\",\"created\":"@ + dec(
        c.created as nat,
    ) + ",\"model\":"@ + quoted(c.model@)
        + ",\"choices\":[{\"index\":0,\"message\":{\"role\":\"assistant\",\"content\":"@ + (
    match c.content {
        Some(t) => quoted(t@),
        None => "null"@,
    }) + (match c.reasoning_content {
        Some(t) => ",\"reasoning_content\":"@ + quoted(t@),
        None => ""@,
    }) + (match c.tool_calls {
        Some(v) => ",\"tool_calls\":["@ + calls_text(v@, v@.len()) + "]"@,
        None => ""@,
    }) + "},\"finish_reason\":"@ + quoted(c.finish_reason@) + "}],\"usage\":"@ + usage_text(c.usage)
        + "}"@
}

pub fn completion_body(c: &ChatCompletionResponse) -> (r: String)
    ensures
        r@ == completion_text(*c),
{
    let content: String = match &c.content {
        Some(t) => quote(t.as_str()),
        None => String::from_str("null"),
    };
    let reasoning: String = match &c.reasoning_content {
        Some(t) => String::from_str(",\"reasoning_content\":").concat(quote(t.as_str()).as_str()),
        None => String::from_str(""),
    };
    let calls: String = match &c.tool_calls {
        Some(v) => String::from_str(",\"tool_calls\":[").concat(write_calls(v).as_str()).concat(
            "]",
        ),
        None => String::from_str(""),
    };
    String::from_str("{\"id\":").concat(quote(c.id.as_str()).as_str()).concat(
        ",\"object\":\"chat.completion\",\"created\":",
    ).concat(dec_text(c.created).as_str()).concat(",\"model\":").concat(
        quote(c.model.as_str()).as_str(),
    ).concat(
        ",\"choices\":[{\"index\":0,\"message\":{\"role\":\"assistant\",\"content\":",
    ).concat(content.as_str()).concat(reasoning.as_str()).concat(calls.as_str()).concat(
        "},\"finish_reason\":",
    ).concat(quote(c.finish_reason.as_str()).as_str()).concat("}],\"usage\":").concat(
        write_usage(&c.usage).as_str(),
    ).concat("}")
}

} // verus!
