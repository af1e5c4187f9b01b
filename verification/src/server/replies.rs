//! What stands in the answers of the server: which members the JSON objects have, and what of an
//! answer the events of a stream carry.

use vstd::prelude::*;
use vstd::string::*;

use crate::codegen::laws::written_dots::{lemma_cat, same};
use crate::server::chat::ToolCall;
use crate::server::json::{field_of, json_written, FieldV, JsonV};
use crate::server::response::{
    call_arguments, call_events, call_opening, call_text, calls_stream, calls_text, chunk_text,
    completion_text, error_event_text, fv, held_stream, member, models_text, opt_quoted, quoted,
    refusal_text, usage_text, ChatCompletionResponse, Usage,
};
use crate::text::dec;

verus! {

/// The name of a member as JSON text, up to its value.
pub open spec fn named(key: Seq<char>) -> Seq<char> {
    "\""@ + key + "\":"@
}

/// A member behind others: nothing, where it has no value.
pub open spec fn behind(before: Seq<char>, key: Seq<char>, value: Option<Seq<char>>) -> Seq<char> {
    match value {
        None => before,
        Some(v) => (if before.len() == 0 {
            before
        } else {
            before + ","@
        }) + (named(key) + v),
    }
}

/// The members that have a value, with commas between them.
pub open spec fn members(ms: Seq<(Seq<char>, Option<Seq<char>>)>) -> Seq<char>
    decreases ms.len(),
{
    if ms.len() == 0 {
        Seq::empty()
    } else {
        behind(members(ms.drop_last()), ms.last().0, ms.last().1)
    }
}

/// A JSON object of the members that have a value.
pub open spec fn object(ms: Seq<(Seq<char>, Option<Seq<char>>)>) -> Seq<char> {
    "{"@ + members(ms) + "}"@
}

/// A JSON array of one item.
pub open spec fn alone(item: Seq<char>) -> Seq<char> {
    "["@ + item + "]"@
}

/// No members.
pub open spec fn bare() -> Seq<(Seq<char>, Option<Seq<char>>)> {
    Seq::empty()
}

proof fn lemma_next(
    ms: Seq<(Seq<char>, Option<Seq<char>>)>,
    key: Seq<char>,
    value: Option<Seq<char>>,
)
    ensures
        members(ms.push((key, value))) == behind(members(ms), key, value),
{
    assert(ms.push((key, value)).drop_last() =~= ms);
}

proof fn lemma_bare()
    ensures
        members(bare()) == Seq::<char>::empty(),
{
}

/// A member in front of all others.
proof fn lemma_first(key: Seq<char>, value: Seq<char>)
    ensures
        members(bare().push((key, Some(value)))) == named(key) + value,
        (named(key) + value).len() > 0,
{
    reveal_strlit("\"");
    lemma_next(bare(), key, Some(value));
    assert(Seq::<char>::empty() + (named(key) + value) =~= named(key) + value);
}

/// A member behind at least one other.
proof fn lemma_more(ms: Seq<(Seq<char>, Option<Seq<char>>)>, key: Seq<char>, value: Seq<char>)
    requires
        members(ms).len() > 0,
    ensures
        members(ms.push((key, Some(value)))) == members(ms) + ","@ + (named(key) + value),
        members(ms.push((key, Some(value)))).len() > 0,
{
    lemma_next(ms, key, Some(value));
}

proof fn lemma_usage_names()
    ensures
        same("{\"prompt_tokens\":"@, "{"@ + named("prompt_tokens"@)),
        same(",\"completion_tokens\":"@, ","@ + named("completion_tokens"@)),
        same(",\"total_tokens\":"@, ","@ + named("total_tokens"@)),
{
    reveal_strlit("{\"prompt_tokens\":");
    reveal_strlit("{");
    reveal_strlit("\"");
    reveal_strlit("\":");
    reveal_strlit(",");
    reveal_strlit("prompt_tokens");
    reveal_strlit(",\"completion_tokens\":");
    reveal_strlit("completion_tokens");
    reveal_strlit(",\"total_tokens\":");
    reveal_strlit("total_tokens");
    assert("{\"prompt_tokens\":"@ =~= "{"@ + named("prompt_tokens"@));
    assert(",\"completion_tokens\":"@ =~= ","@ + named("completion_tokens"@));
    assert(",\"total_tokens\":"@ =~= ","@ + named("total_tokens"@));
}

/// The members of the count of tokens.
pub open spec fn usage_members(u: Usage) -> Seq<(Seq<char>, Option<Seq<char>>)> {
    bare().push(("prompt_tokens"@, Some(dec(u.prompt_tokens as nat)))).push(
        ("completion_tokens"@, Some(dec(u.completion_tokens as nat))),
    ).push(("total_tokens"@, Some(dec(u.total_tokens as nat))))
}

/// A count of tokens is told as an object with the tokens of the prompt, those of the answer and
/// their sum, each under its name.
pub proof fn lemma_usage_members(u: Usage)
    ensures
        usage_text(u) == object(usage_members(u)),
{
    let p = dec(u.prompt_tokens as nat);
    let c = dec(u.completion_tokens as nat);
    let m1 = bare().push(("prompt_tokens"@, Some(p)));
    let m2 = m1.push(("completion_tokens"@, Some(c)));
    lemma_first("prompt_tokens"@, p);
    lemma_more(m1, "completion_tokens"@, c);
    lemma_more(m2, "total_tokens"@, dec(u.total_tokens as nat));
    lemma_usage_names();
    lemma_cat();
}

/// What a chunk of a stream adds to the message.
pub open spec fn delta_members(
    role: Option<Seq<char>>,
    content: Option<Seq<char>>,
    calls: Option<JsonV>,
) -> Seq<(Seq<char>, Option<Seq<char>>)> {
    bare().push(("role"@, opt_quoted(role))).push(("content"@, opt_quoted(content))).push(
        (
            "tool_calls"@,
            match calls {
                Some(j) => Some(json_written(j)),
                None => None,
            },
        ),
    )
}

/// The members of the one choice of a chunk.
pub open spec fn chunk_choice(
    delta: Seq<char>,
    finish: Option<Seq<char>>,
) -> Seq<(Seq<char>, Option<Seq<char>>)> {
    bare().push(("index"@, Some("0"@))).push(("delta"@, Some(delta))).push(
        (
            "finish_reason"@,
            Some(
                match finish {
                    Some(f) => quoted(f),
                    None => "null"@,
                },
            ),
        ),
    )
}

/// The members of an answer, or of a chunk of one, of the kind `kind`.
pub open spec fn reply_members(
    id: Seq<char>,
    kind: Seq<char>,
    created: u64,
    model: Seq<char>,
    choices: Seq<char>,
    usage: Option<Usage>,
) -> Seq<(Seq<char>, Option<Seq<char>>)> {
    bare().push(("id"@, Some(quoted(id)))).push(("object"@, Some(kind))).push(
        ("created"@, Some(dec(created as nat))),
    ).push(("model"@, Some(quoted(model)))).push(("choices"@, Some(choices))).push(
        (
            "usage"@,
            match usage {
                Some(u) => Some(usage_text(u)),
                None => None,
            },
        ),
    )
}

/// An answer written out with its members one behind the other.
proof fn lemma_reply(
    id: Seq<char>,
    kind: Seq<char>,
    created: u64,
    model: Seq<char>,
    choices: Seq<char>,
    usage: Option<Usage>,
)
    ensures
        same(
            object(reply_members(id, kind, created, model, choices, usage)),
            "{"@ + named("id"@) + quoted(id) + ","@ + named("object"@) + kind + ","@ + named(
                "created"@,
            ) + dec(created as nat) + ","@ + named("model"@) + quoted(model) + ","@ + named(
                "choices"@,
            ) + choices + (match usage {
                Some(u) => ","@ + named("usage"@) + usage_text(u),
                None => ""@,
            }) + "}"@,
        ),
{
    let m1 = bare().push(("id"@, Some(quoted(id))));
    let m2 = m1.push(("object"@, Some(kind)));
    let m3 = m2.push(("created"@, Some(dec(created as nat))));
    let m4 = m3.push(("model"@, Some(quoted(model))));
    let m5 = m4.push(("choices"@, Some(choices)));
    lemma_first("id"@, quoted(id));
    lemma_more(m1, "object"@, kind);
    lemma_more(m2, "created"@, dec(created as nat));
    lemma_more(m3, "model"@, quoted(model));
    lemma_more(m4, "choices"@, choices);
    match usage {
        Some(u) => {
            lemma_more(m5, "usage"@, usage_text(u));
        },
        None => {
            lemma_next(m5, "usage"@, None);
            reveal_strlit("");
            assert("{"@ + members(m5) + ""@ =~= "{"@ + members(m5));
        },
    }
    lemma_cat();
}

proof fn lemma_reply_names()
    ensures
        same("{\"id\":"@, "{"@ + named("id"@)),
        same(",\"model\":"@, ","@ + named("model"@)),
        same(",\"usage\":"@, ","@ + named("usage"@)),
{
    reveal_strlit("{\"id\":");
    reveal_strlit("{");
    reveal_strlit("id");
    reveal_strlit("\"");
    reveal_strlit("\":");
    reveal_strlit(",");
    reveal_strlit(",\"model\":");
    reveal_strlit("model");
    reveal_strlit(",\"usage\":");
    reveal_strlit("usage");
    assert("{\"id\":"@ =~= "{"@ + named("id"@));
    assert(",\"model\":"@ =~= ","@ + named("model"@));
    assert(",\"usage\":"@ =~= ","@ + named("usage"@));
}

proof fn lemma_chunk_kind()
    ensures
        same(
            ",\"object\":\"chat.completion.chunk\",\"created\":"@,
            ","@ + named("object"@) + "\"chat.completion.chunk\""@ + ","@ + named("created"@),
        ),
{
    reveal_strlit(",\"object\":\"chat.completion.chunk\",\"created\":");
    reveal_strlit("\"chat.completion.chunk\"");
    reveal_strlit("object");
    reveal_strlit("created");
    reveal_strlit("\"");
    reveal_strlit("\":");
    reveal_strlit(",");
    assert(",\"object\":\"chat.completion.chunk\",\"created\":"@ =~= ","@ + named("object"@)
        + "\"chat.completion.chunk\""@ + ","@ + named("created"@));
}

proof fn lemma_chunk_open()
    ensures
        same(
            ",\"choices\":[{\"index\":0,\"delta\":{"@,
            ","@ + named("choices"@) + "["@ + "{"@ + named("index"@) + "0"@ + ","@ + named("delta"@)
                + "{"@,
        ),
{
    reveal_strlit(",\"choices\":[{\"index\":0,\"delta\":{");
    reveal_strlit("choices");
    reveal_strlit("[");
    reveal_strlit("{");
    reveal_strlit("index");
    reveal_strlit("0");
    reveal_strlit("delta");
    reveal_strlit("\"");
    reveal_strlit("\":");
    reveal_strlit(",");
    assert(",\"choices\":[{\"index\":0,\"delta\":{"@ =~= ","@ + named("choices"@) + "["@ + "{"@
        + named("index"@) + "0"@ + ","@ + named("delta"@) + "{"@);
}

proof fn lemma_chunk_close()
    ensures
        same("},\"finish_reason\":"@, "}"@ + ","@ + named("finish_reason"@)),
        same("}]"@, "}"@ + "]"@),
{
    reveal_strlit("},\"finish_reason\":");
    reveal_strlit("finish_reason");
    reveal_strlit("}");
    reveal_strlit("]");
    reveal_strlit("}]");
    reveal_strlit("\"");
    reveal_strlit("\":");
    reveal_strlit(",");
    assert("},\"finish_reason\":"@ =~= "}"@ + ","@ + named("finish_reason"@));
    assert("}]"@ =~= "}"@ + "]"@);
}

proof fn lemma_delta_names()
    ensures
        same("\"role\":"@, named("role"@)),
        same("\"content\":"@, named("content"@)),
        same("\"tool_calls\":"@, named("tool_calls"@)),
{
    reveal_strlit("\"role\":");
    reveal_strlit("\"content\":");
    reveal_strlit("\"tool_calls\":");
    reveal_strlit("role");
    reveal_strlit("content");
    reveal_strlit("tool_calls");
    reveal_strlit("\"");
    reveal_strlit("\":");
    assert("\"role\":"@ =~= named("role"@));
    assert("\"content\":"@ =~= named("content"@));
    assert("\"tool_calls\":"@ =~= named("tool_calls"@));
}

proof fn lemma_member(acc: Seq<char>, key: Seq<char>, value: Option<Seq<char>>)
    ensures
        same(member(acc, named(key), value), behind(acc, key, value)),
{
    lemma_cat();
}

proof fn lemma_delta(role: Option<Seq<char>>, content: Option<Seq<char>>, calls: Option<JsonV>)
    ensures
        same(
            member(
                member(
                    member(Seq::empty(), "\"role\":"@, opt_quoted(role)),
                    "\"content\":"@,
                    opt_quoted(content),
                ),
                "\"tool_calls\":"@,
                match calls {
                    Some(j) => Some(json_written(j)),
                    None => None,
                },
            ),
            members(delta_members(role, content, calls)),
        ),
{
    let told: Option<Seq<char>> = match calls {
        Some(j) => Some(json_written(j)),
        None => None,
    };
    let m1 = bare().push(("role"@, opt_quoted(role)));
    let m2 = m1.push(("content"@, opt_quoted(content)));
    lemma_bare();
    lemma_next(bare(), "role"@, opt_quoted(role));
    lemma_next(m1, "content"@, opt_quoted(content));
    lemma_next(m2, "tool_calls"@, told);
    lemma_delta_names();
    lemma_member(Seq::empty(), "role"@, opt_quoted(role));
    lemma_member(members(m1), "content"@, opt_quoted(content));
    lemma_member(members(m2), "tool_calls"@, told);
}

proof fn lemma_choice(delta: Seq<char>, finish: Option<Seq<char>>)
    ensures
        same(
            alone(object(chunk_choice("{"@ + delta + "}"@, finish))),
            "["@ + "{"@ + named("index"@) + "0"@ + ","@ + named("delta"@) + "{"@ + delta + "}"@
                + ","@ + named("finish_reason"@) + (match finish {
                Some(f) => quoted(f),
                None => "null"@,
            }) + "}"@ + "]"@,
        ),
{
    let d = "{"@ + delta + "}"@;
    let m1 = bare().push(("index"@, Some("0"@)));
    let m2 = m1.push(("delta"@, Some(d)));
    lemma_first("index"@, "0"@);
    lemma_more(m1, "delta"@, d);
    lemma_more(
        m2,
        "finish_reason"@,
        match finish {
            Some(f) => quoted(f),
            None => "null"@,
        },
    );
    lemma_cat();
}

/// A chunk of a stream is an object that names the answer, the time, the model and one choice;
/// the choice adds a role, a text or calls to the message, whichever there are, and says why the
/// answer ended, if it did. The count of tokens is there where it is told.
pub proof fn lemma_chunk_members(
    id: Seq<char>,
    created: u64,
    model: Seq<char>,
    role: Option<Seq<char>>,
    content: Option<Seq<char>>,
    finish: Option<Seq<char>>,
    usage: Option<Usage>,
    calls: Option<JsonV>,
)
    ensures
        chunk_text(id, created, model, role, content, finish, usage, calls) == object(
            reply_members(
                id,
                "\"chat.completion.chunk\""@,
                created,
                model,
                alone(
                    object(chunk_choice(object(delta_members(role, content, calls)), finish)),
                ),
                usage,
            ),
        ),
{
    let delta = members(delta_members(role, content, calls));
    let choices = alone(object(chunk_choice(object(delta_members(role, content, calls)), finish)));
    lemma_delta(role, content, calls);
    lemma_choice(delta, finish);
    lemma_reply(id, "\"chat.completion.chunk\""@, created, model, choices, usage);
    lemma_reply_names();
    lemma_chunk_kind();
    lemma_chunk_open();
    lemma_chunk_close();
    lemma_cat();
}

/// Some texts, with commas between them.
pub open spec fn listed(items: Seq<Seq<char>>) -> Seq<char>
    decreases items.len(),
{
    if items.len() == 0 {
        Seq::empty()
    } else if items.len() == 1 {
        items[0]
    } else {
        listed(items.drop_last()) + ","@ + items.last()
    }
}

/// The members of a call in an answer.
pub open spec fn call_members(c: ToolCall) -> Seq<(Seq<char>, Option<Seq<char>>)> {
    bare().push(("id"@, Some(quoted(c.id@)))).push(("type"@, Some(quoted(c.call_type@)))).push(
        (
            "function"@,
            Some(
                object(
                    bare().push(("name"@, Some(quoted(c.function.name@)))).push(
                        ("arguments"@, Some(quoted(c.function.arguments@))),
                    ),
                ),
            ),
        ),
    )
}

proof fn lemma_call_names()
    ensures
        same(",\"type\":"@, ","@ + named("type"@)),
        same(
            ",\"function\":{\"name\":"@,
            ","@ + named("function"@) + "{"@ + named("name"@),
        ),
        same(",\"arguments\":"@, ","@ + named("arguments"@)),
        same("}}"@, "}"@ + "}"@),
{
    reveal_strlit(",\"type\":");
    reveal_strlit("type");
    reveal_strlit(",\"function\":{\"name\":");
    reveal_strlit("function");
    reveal_strlit("name");
    reveal_strlit(",\"arguments\":");
    reveal_strlit("arguments");
    reveal_strlit("{");
    reveal_strlit("}");
    reveal_strlit("}}");
    reveal_strlit("\"");
    reveal_strlit("\":");
    reveal_strlit(",");
    assert(",\"type\":"@ =~= ","@ + named("type"@));
    assert(",\"function\":{\"name\":"@ =~= ","@ + named("function"@) + "{"@ + named("name"@));
    assert(",\"arguments\":"@ =~= ","@ + named("arguments"@));
    assert("}}"@ =~= "}"@ + "}"@);
}

/// A call in an answer is an object with its number, its type, and the name and the arguments of
/// the function.
pub proof fn lemma_call_members(c: ToolCall)
    ensures
        call_text(c) == object(call_members(c)),
{
    let f1 = bare().push(("name"@, Some(quoted(c.function.name@))));
    let f2 = f1.push(("arguments"@, Some(quoted(c.function.arguments@))));
    lemma_first("name"@, quoted(c.function.name@));
    lemma_more(f1, "arguments"@, quoted(c.function.arguments@));
    let m1 = bare().push(("id"@, Some(quoted(c.id@))));
    let m2 = m1.push(("type"@, Some(quoted(c.call_type@))));
    lemma_first("id"@, quoted(c.id@));
    lemma_more(m1, "type"@, quoted(c.call_type@));
    lemma_more(m2, "function"@, object(f2));
    lemma_reply_names();
    lemma_call_names();
    lemma_cat();
}

/// The calls of an answer as JSON text, each on its own.
pub open spec fn call_objects(calls: Seq<ToolCall>) -> Seq<Seq<char>> {
    Seq::new(calls.len(), |i: int| object(call_members(calls[i])))
}

proof fn lemma_calls_listed(calls: Seq<ToolCall>, n: nat)
    requires
        n <= calls.len(),
    ensures
        calls_text(calls, n) == listed(call_objects(calls).take(n as int)),
    decreases n,
{
    let all = call_objects(calls);
    if n > 0 {
        let now = all.take(n as int);
        assert(now.drop_last() =~= all.take(n - 1));
        assert(now.last() == all[n - 1]);
        lemma_calls_listed(calls, (n - 1) as nat);
        lemma_call_members(calls[n - 1]);
    }
}

/// The members of the message of a whole answer.
pub open spec fn message_members(
    c: ChatCompletionResponse,
) -> Seq<(Seq<char>, Option<Seq<char>>)> {
    bare().push(("role"@, Some("\"assistant\""@))).push(
        (
            "content"@,
            Some(
                match c.content {
                    Some(t) => quoted(t@),
                    None => "null"@,
                },
            ),
        ),
    ).push(
        (
            "reasoning_content"@,
            match c.reasoning_content {
                Some(t) => Some(quoted(t@)),
                None => None,
            },
        ),
    ).push(
        (
            "tool_calls"@,
            match c.tool_calls {
                Some(v) => Some(alone(listed(call_objects(v@)))),
                None => None,
            },
        ),
    )
}

/// The members of the one choice of a whole answer.
pub open spec fn answer_choice(
    message: Seq<char>,
    finish: Seq<char>,
) -> Seq<(Seq<char>, Option<Seq<char>>)> {
    bare().push(("index"@, Some("0"@))).push(("message"@, Some(message))).push(
        ("finish_reason"@, Some(quoted(finish))),
    )
}

proof fn lemma_answer_kind()
    ensures
        same(
            ",\"object\":\"chat.completion\",\"created\":"@,
            ","@ + named("object"@) + "\"chat.completion\""@ + ","@ + named("created"@),
        ),
{
    reveal_strlit(",\"object\":\"chat.completion\",\"created\":");
    reveal_strlit("\"chat.completion\"");
    reveal_strlit("object");
    reveal_strlit("created");
    reveal_strlit("\"");
    reveal_strlit("\":");
    reveal_strlit(",");
    assert(",\"object\":\"chat.completion\",\"created\":"@ =~= ","@ + named("object"@)
        + "\"chat.completion\""@ + ","@ + named("created"@));
}

proof fn lemma_answer_open()
    ensures
        same(
            ",\"choices\":[{\"index\":0,\"message\":{\"role\":\"assistant\",\"content\":"@,
            ","@ + named("choices"@) + "["@ + "{"@ + named("index"@) + "0"@ + ","@ + named(
                "message"@,
            ) + "{"@ + named("role"@) + "\"assistant\""@ + ","@ + named("content"@),
        ),
{
    reveal_strlit(",\"choices\":[{\"index\":0,\"message\":{\"role\":\"assistant\",\"content\":");
    reveal_strlit("choices");
    reveal_strlit("[");
    reveal_strlit("{");
    reveal_strlit("index");
    reveal_strlit("0");
    reveal_strlit("message");
    reveal_strlit("role");
    reveal_strlit("\"assistant\"");
    reveal_strlit("content");
    reveal_strlit("\"");
    reveal_strlit("\":");
    reveal_strlit(",");
    assert(",\"choices\":[{\"index\":0,\"message\":{\"role\":\"assistant\",\"content\":"@ =~= ","@
        + named("choices"@) + "["@ + "{"@ + named("index"@) + "0"@ + ","@ + named("message"@)
        + "{"@ + named("role"@) + "\"assistant\""@ + ","@ + named("content"@));
}

proof fn lemma_answer_names()
    ensures
        same(",\"reasoning_content\":"@, ","@ + named("reasoning_content"@)),
        same(",\"tool_calls\":["@, ","@ + named("tool_calls"@) + "["@),
        same("}],\"usage\":"@, "}"@ + "]"@ + ","@ + named("usage"@)),
{
    reveal_strlit(",\"reasoning_content\":");
    reveal_strlit("reasoning_content");
    reveal_strlit(",\"tool_calls\":[");
    reveal_strlit("tool_calls");
    reveal_strlit("}],\"usage\":");
    reveal_strlit("usage");
    reveal_strlit("[");
    reveal_strlit("]");
    reveal_strlit("}");
    reveal_strlit("\"");
    reveal_strlit("\":");
    reveal_strlit(",");
    assert(",\"reasoning_content\":"@ =~= ","@ + named("reasoning_content"@));
    assert(",\"tool_calls\":["@ =~= ","@ + named("tool_calls"@) + "["@);
    assert("}],\"usage\":"@ =~= "}"@ + "]"@ + ","@ + named("usage"@));
}

/// The texts that may follow the content of a message.
proof fn lemma_message(c: ChatCompletionResponse)
    ensures
        same(
            members(message_members(c)),
            named("role"@) + "\"assistant\""@ + ","@ + named("content"@) + (match c.content {
                Some(t) => quoted(t@),
                None => "null"@,
            }) + (match c.reasoning_content {
                Some(t) => ",\"reasoning_content\":"@ + quoted(t@),
                None => ""@,
            }) + (match c.tool_calls {
                Some(v) => ",\"tool_calls\":["@ + calls_text(v@, v@.len()) + "]"@,
                None => ""@,
            }),
        ),
{
    let content = match c.content {
        Some(t) => quoted(t@),
        None => "null"@,
    };
    let m1 = bare().push(("role"@, Some("\"assistant\""@)));
    let m2 = m1.push(("content"@, Some(content)));
    lemma_first("role"@, "\"assistant\""@);
    lemma_more(m1, "content"@, content);
    lemma_answer_names();
    reveal_strlit("");
    let reasoning: Option<Seq<char>> = match c.reasoning_content {
        Some(t) => Some(quoted(t@)),
        None => None,
    };
    let m3 = m2.push(("reasoning_content"@, reasoning));
    lemma_next(m2, "reasoning_content"@, reasoning);
    assert(members(m2) + ""@ =~= members(m2));
    assert(members(m3) + ""@ =~= members(m3));
    lemma_cat();
    match c.tool_calls {
        Some(v) => {
            lemma_calls_listed(v@, v@.len());
            assert(call_objects(v@).take(v@.len() as int) =~= call_objects(v@));
            lemma_more(m3, "tool_calls"@, alone(listed(call_objects(v@))));
        },
        None => {
            lemma_next(m3, "tool_calls"@, None);
        },
    }
}

proof fn lemma_answer_choice(inner: Seq<char>, finish: Seq<char>)
    ensures
        same(
            alone(object(answer_choice("{"@ + inner + "}"@, finish))),
            "["@ + "{"@ + named("index"@) + "0"@ + ","@ + named("message"@) + "{"@ + inner + "}"@
                + ","@ + named("finish_reason"@) + quoted(finish) + "}"@ + "]"@,
        ),
{
    let d = "{"@ + inner + "}"@;
    let m1 = bare().push(("index"@, Some("0"@)));
    let m2 = m1.push(("message"@, Some(d)));
    lemma_first("index"@, "0"@);
    lemma_more(m1, "message"@, d);
    lemma_more(m2, "finish_reason"@, quoted(finish));
    lemma_cat();
}

/// A whole answer is an object that names the answer, the time, the model, one choice and the
/// count of tokens; the choice has the message, with its content, its reasoning and its calls, and
/// says why the answer ended.
pub proof fn lemma_answer_members(c: ChatCompletionResponse)
    ensures
        completion_text(c) == object(
            reply_members(
                c.id@,
                "\"chat.completion\""@,
                c.created,
                c.model@,
                alone(object(answer_choice(object(message_members(c)), c.finish_reason@))),
                Some(c.usage),
            ),
        ),
{
    let choices = alone(object(answer_choice(object(message_members(c)), c.finish_reason@)));
    lemma_message(c);
    lemma_answer_choice(members(message_members(c)), c.finish_reason@);
    lemma_reply(c.id@, "\"chat.completion\""@, c.created, c.model@, choices, Some(c.usage));
    lemma_reply_names();
    lemma_answer_kind();
    lemma_answer_open();
    lemma_answer_names();
    lemma_chunk_close();
    lemma_cat();
}

/// The members of an error.
pub open spec fn error_members(
    message: Seq<char>,
    kind: Seq<char>,
    code: Seq<char>,
) -> Seq<(Seq<char>, Option<Seq<char>>)> {
    bare().push(
        (
            "error"@,
            Some(
                object(
                    bare().push(("message"@, Some(quoted(message)))).push(
                        ("type"@, Some(kind)),
                    ).push(("code"@, Some(code))),
                ),
            ),
        ),
    )
}

proof fn lemma_error(message: Seq<char>, kind: Seq<char>, code: Seq<char>)
    ensures
        same(
            object(error_members(message, kind, code)),
            "{"@ + named("error"@) + "{"@ + named("message"@) + quoted(message) + ","@ + named(
                "type"@,
            ) + kind + ","@ + named("code"@) + code + "}"@ + "}"@,
        ),
{
    let m1 = bare().push(("message"@, Some(quoted(message))));
    let m2 = m1.push(("type"@, Some(kind)));
    let m3 = m2.push(("code"@, Some(code)));
    lemma_first("message"@, quoted(message));
    lemma_more(m1, "type"@, kind);
    lemma_more(m2, "code"@, code);
    lemma_first("error"@, object(m3));
    lemma_cat();
}

proof fn lemma_error_names()
    ensures
        same(
            "{\"error\":{\"message\":"@,
            "{"@ + named("error"@) + "{"@ + named("message"@),
        ),
        same(
            ",\"type\":\"internal_error\",\"code\":\"internal_error\"}}"@,
            ","@ + named("type"@) + "\"internal_error\""@ + ","@ + named("code"@)
                + "\"internal_error\""@ + "}"@ + "}"@,
        ),
        same(
            ",\"type\":\"invalid_request_error\",\"code\":"@,
            ","@ + named("type"@) + "\"invalid_request_error\""@ + ","@ + named("code"@),
        ),
{
    reveal_strlit("{\"error\":{\"message\":");
    reveal_strlit("error");
    reveal_strlit("message");
    reveal_strlit("{");
    reveal_strlit("}");
    reveal_strlit("\"");
    reveal_strlit("\":");
    reveal_strlit(",");
    reveal_strlit(",\"type\":\"internal_error\",\"code\":\"internal_error\"}}");
    reveal_strlit("type");
    reveal_strlit("code");
    reveal_strlit("\"internal_error\"");
    reveal_strlit(",\"type\":\"invalid_request_error\",\"code\":");
    reveal_strlit("\"invalid_request_error\"");
    assert("{\"error\":{\"message\":"@ =~= "{"@ + named("error"@) + "{"@ + named("message"@));
    assert(",\"type\":\"internal_error\",\"code\":\"internal_error\"}}"@ =~= ","@ + named("type"@)
        + "\"internal_error\""@ + ","@ + named("code"@) + "\"internal_error\""@ + "}"@ + "}"@);
    assert(",\"type\":\"invalid_request_error\",\"code\":"@ =~= ","@ + named("type"@)
        + "\"invalid_request_error\""@ + ","@ + named("code"@));
}

/// An error in a stream, and a refused request, are answered with an object that has the message,
/// the type of the error and its code.
pub proof fn lemma_error_members(code: Seq<char>, message: Seq<char>)
    ensures
        error_event_text(message) == object(
            error_members(message, "\"internal_error\""@, "\"internal_error\""@),
        ),
        refusal_text(code, message) == object(
            error_members(message, "\"invalid_request_error\""@, quoted(code)),
        ),
{
    lemma_error(message, "\"internal_error\""@, "\"internal_error\""@);
    lemma_error(message, "\"invalid_request_error\""@, quoted(code));
    lemma_error_names();
    lemma_call_names();
    lemma_cat();
}

proof fn lemma_models_names()
    ensures
        same(
            "{\"object\":\"list\",\"data\":[{\"id\":"@,
            "{"@ + named("object"@) + "\"list\""@ + ","@ + named("data"@) + "["@ + "{"@ + named(
                "id"@,
            ),
        ),
        same(
            ",\"object\":\"model\",\"owned_by\":\"local\"}]}"@,
            ","@ + named("object"@) + "\"model\""@ + ","@ + named("owned_by"@) + "\"local\""@
                + "}"@ + "]"@ + "}"@,
        ),
{
    reveal_strlit("{\"object\":\"list\",\"data\":[{\"id\":");
    reveal_strlit(",\"object\":\"model\",\"owned_by\":\"local\"}]}");
    reveal_strlit("object");
    reveal_strlit("\"list\"");
    reveal_strlit("data");
    reveal_strlit("id");
    reveal_strlit("\"model\"");
    reveal_strlit("owned_by");
    reveal_strlit("\"local\"");
    reveal_strlit("{");
    reveal_strlit("}");
    reveal_strlit("[");
    reveal_strlit("]");
    reveal_strlit("\"");
    reveal_strlit("\":");
    reveal_strlit(",");
    assert("{\"object\":\"list\",\"data\":[{\"id\":"@ =~= "{"@ + named("object"@) + "\"list\""@
        + ","@ + named("data"@) + "["@ + "{"@ + named("id"@));
    assert(",\"object\":\"model\",\"owned_by\":\"local\"}]}"@ =~= ","@ + named("object"@)
        + "\"model\""@ + ","@ + named("owned_by"@) + "\"local\""@ + "}"@ + "]"@ + "}"@);
}

/// The list of models is an object that holds one model, with its number.
pub proof fn lemma_models_members(id: Seq<char>)
    ensures
        models_text(id) == object(
            bare().push(("object"@, Some("\"list\""@))).push(
                (
                    "data"@,
                    Some(
                        alone(
                            object(
                                bare().push(("id"@, Some(quoted(id)))).push(
                                    ("object"@, Some("\"model\""@)),
                                ).push(("owned_by"@, Some("\"local\""@))),
                            ),
                        ),
                    ),
                ),
            ),
        ),
{
    let m1 = bare().push(("id"@, Some(quoted(id))));
    let m2 = m1.push(("object"@, Some("\"model\""@)));
    let m3 = m2.push(("owned_by"@, Some("\"local\""@)));
    lemma_first("id"@, quoted(id));
    lemma_more(m1, "object"@, "\"model\""@);
    lemma_more(m2, "owned_by"@, "\"local\""@);
    let l1 = bare().push(("object"@, Some("\"list\""@)));
    lemma_first("object"@, "\"list\""@);
    lemma_more(l1, "data"@, alone(object(m3)));
    lemma_models_names();
    lemma_cat();
}

/// What the two events of a call say of it: the first its place, its number, its type and its
/// name, the second its place and its arguments.
pub open spec fn tells_of(c: ToolCall, i: int, opening: JsonV, arguments: JsonV) -> bool {
    let place = JsonV::Number(dec(i as nat));
    &&& opening matches JsonV::Array(a) && {
        &&& a.len() == 1
        &&& a[0] matches JsonV::Object(o) && {
            &&& field_of(o, "index"@) == Some(place)
            &&& field_of(o, "id"@) == Some(JsonV::Str(c.id@))
            &&& field_of(o, "type"@) == Some(JsonV::Str(c.call_type@))
            &&& field_of(o, "function"@) matches Some(JsonV::Object(f)) && {
                &&& field_of(f, "name"@) == Some(JsonV::Str(c.function.name@))
                &&& field_of(f, "arguments"@) == Some(JsonV::Str(""@))
            }
        }
    }
    &&& arguments matches JsonV::Array(a) && {
        &&& a.len() == 1
        &&& a[0] matches JsonV::Object(o) && {
            &&& field_of(o, "index"@) == Some(place)
            &&& field_of(o, "function"@) matches Some(JsonV::Object(f)) && field_of(f, "arguments"@)
                == Some(JsonV::Str(c.function.arguments@))
        }
    }
}

/// The texts of two events tell of a call, and of nothing else.
pub open spec fn tell_call(
    id: Seq<char>,
    created: u64,
    model: Seq<char>,
    c: ToolCall,
    i: int,
    first: Seq<char>,
    second: Seq<char>,
) -> bool {
    exists|a: JsonV, b: JsonV|
        #![trigger tells_of(c, i, a, b)]
        tells_of(c, i, a, b) && first == chunk_text(
            id,
            created,
            model,
            None,
            None,
            None,
            None,
            Some(a),
        ) && second == chunk_text(id, created, model, None, None, None, None, Some(b))
}

proof fn lemma_field(fields: Seq<FieldV>, f: FieldV, key: Seq<char>)
    ensures
        field_of(fields.push(f), key) == (match field_of(fields, key) {
            Some(v) => Some(v),
            None => if f.key == key {
                Some(f.value)
            } else {
                None
            },
        }),
    decreases fields.len(),
{
    reveal_with_fuel(field_of, 2);
    if fields.len() > 0 {
        assert(fields.push(f)[0] == fields[0]);
        assert(fields.push(f).skip(1) =~= fields.skip(1).push(f));
        lemma_field(fields.skip(1), f, key);
    } else {
        assert(fields.push(f).skip(1) =~= Seq::<FieldV>::empty());
        assert(fields.push(f)[0] == f);
    }
}

proof fn lemma_call_pieces(c: ToolCall, i: usize)
    ensures
        tells_of(
            c,
            i as int,
            call_opening(i, c.id@, c.call_type@, c.function.name@),
            call_arguments(i, c.function.arguments@),
        ),
{
    reveal_strlit("index");
    reveal_strlit("id");
    reveal_strlit("type");
    reveal_strlit("function");
    reveal_strlit("name");
    reveal_strlit("arguments");
    assert("index"@.len() == 5 && "id"@.len() == 2 && "type"@.len() == 4 && "function"@.len() == 8);
    assert("name"@.len() == 4 && "arguments"@.len() == 9);
    let none = Seq::<FieldV>::empty();
    let place = JsonV::Number(dec(i as nat));
    let f0 = none.push(fv("name"@, JsonV::Str(c.function.name@)));
    let f = f0.push(fv("arguments"@, JsonV::Str(""@)));
    lemma_pushed(none, "name"@, JsonV::Str(c.function.name@));
    lemma_pushed(f0, "arguments"@, JsonV::Str(""@));
    let o1 = none.push(fv("index"@, place));
    let o2 = o1.push(fv("id"@, JsonV::Str(c.id@)));
    let o3 = o2.push(fv("type"@, JsonV::Str(c.call_type@)));
    lemma_pushed(none, "index"@, place);
    lemma_pushed(o1, "id"@, JsonV::Str(c.id@));
    lemma_pushed(o2, "type"@, JsonV::Str(c.call_type@));
    lemma_pushed(o3, "function"@, JsonV::Object(f));
    let g = none.push(fv("arguments"@, JsonV::Str(c.function.arguments@)));
    lemma_pushed(none, "arguments"@, JsonV::Str(c.function.arguments@));
    lemma_pushed(o1, "function"@, JsonV::Object(g));
}

/// A member at the end is found under its name, and hides none in front of it.
proof fn lemma_pushed(fields: Seq<FieldV>, key: Seq<char>, value: JsonV)
    ensures
        field_of(fields, key) is None ==> field_of(fields.push(fv(key, value)), key) == Some(value),
        forall|k: Seq<char>|
            k != key ==> #[trigger] field_of(fields.push(fv(key, value)), k) == field_of(fields, k),
{
    lemma_field(fields, fv(key, value), key);
    assert forall|k: Seq<char>| k != key implies #[trigger] field_of(
        fields.push(fv(key, value)),
        k,
    ) == field_of(fields, k) by {
        lemma_field(fields, fv(key, value), k);
    }
}

proof fn lemma_calls_told(
    acc: Seq<Seq<char>>,
    id: Seq<char>,
    created: u64,
    model: Seq<char>,
    calls: Seq<ToolCall>,
    n: nat,
)
    requires
        n <= calls.len() <= usize::MAX,
    ensures
        ({
            let e = call_events(acc, id, created, model, calls, n);
            &&& e.len() == acc.len() + 2 * n
            &&& forall|i: int| 0 <= i < acc.len() ==> e[i] == acc[i]
            &&& forall|i: int|
                #![trigger calls[i]]
                0 <= i < n ==> tell_call(
                    id,
                    created,
                    model,
                    calls[i],
                    i,
                    e[acc.len() + 2 * i],
                    e[acc.len() + 2 * i + 1],
                )
        }),
    decreases n,
{
    if n > 0 {
        lemma_calls_told(acc, id, created, model, calls, (n - 1) as nat);
        let i = (n - 1) as usize;
        let c = calls[n - 1];
        lemma_call_pieces(c, i);
        let e = call_events(acc, id, created, model, calls, n);
        let before = call_events(acc, id, created, model, calls, (n - 1) as nat);
        assert(forall|k: int| 0 <= k < before.len() ==> e[k] == before[k]);
        let a = call_opening(i, c.id@, c.call_type@, c.function.name@);
        let b = call_arguments(i, c.function.arguments@);
        assert(tells_of(c, n - 1, a, b));
        assert(tell_call(
            id,
            created,
            model,
            calls[n - 1],
            n - 1,
            e[acc.len() + 2 * (n - 1)],
            e[acc.len() + 2 * (n - 1) + 1],
        ));
    }
}

/// A stream of calls alone opens with the role, tells of every call in order with two events,
/// ends the answer for its calls, with the count of tokens where it is told, and closes the
/// stream.
pub proof fn lemma_calls_are_streamed(
    id: Seq<char>,
    created: u64,
    model: Seq<char>,
    calls: Seq<ToolCall>,
    usage: Option<Usage>,
)
    requires
        calls.len() <= usize::MAX,
    ensures
        ({
            let e = calls_stream(id, created, model, calls, usage);
            let n = calls.len() as int;
            &&& e.len() == 2 * n + 3
            &&& e[0] == chunk_text(id, created, model, Some("assistant"@), None, None, None, None)
            &&& forall|i: int|
                #![trigger calls[i]]
                0 <= i < n ==> tell_call(
                    id,
                    created,
                    model,
                    calls[i],
                    i,
                    e[2 * i + 1],
                    e[2 * i + 2],
                )
            &&& e[2 * n + 1] == chunk_text(
                id,
                created,
                model,
                None,
                None,
                Some("tool_calls"@),
                usage,
                None,
            )
            &&& e[2 * n + 2] == "[DONE]"@
        }),
{
    let acc = Seq::<Seq<char>>::empty().push(
        chunk_text(id, created, model, Some("assistant"@), None, None, None, None),
    );
    lemma_calls_told(acc, id, created, model, calls, calls.len());
    let told = call_events(acc, id, created, model, calls, calls.len());
    let e = calls_stream(id, created, model, calls, usage);
    assert(forall|k: int| 0 <= k < told.len() ==> e[k] == told[k]);
    assert forall|i: int| #![trigger calls[i]] 0 <= i < calls.len() implies tell_call(
        id,
        created,
        model,
        calls[i],
        i,
        e[2 * i + 1],
        e[2 * i + 2],
    ) by {
        assert(told[acc.len() + 2 * i] == e[2 * i + 1]);
        assert(told[acc.len() + 2 * i + 1] == e[2 * i + 2]);
    }
}

/// What was held back is sent at the end: every call in order with two events, or the text where
/// there is one, and then why the answer ended.
pub proof fn lemma_held_is_sent(
    id: Seq<char>,
    created: u64,
    model: Seq<char>,
    calls: Seq<ToolCall>,
    visible: Seq<char>,
    usage: Option<Usage>,
)
    requires
        calls.len() <= usize::MAX,
    ensures
        ({
            let e = held_stream(id, created, model, calls, visible, usage);
            let n = calls.len() as int;
            let why = if n > 0 {
                "tool_calls"@
            } else {
                "stop"@
            };
            &&& e.len() > 0
            &&& e.last() == chunk_text(id, created, model, None, None, Some(why), usage, None)
            &&& n > 0 ==> e.len() == 2 * n + 1
            &&& forall|i: int|
                #![trigger calls[i]]
                0 <= i < n ==> tell_call(id, created, model, calls[i], i, e[2 * i], e[2 * i + 1])
            &&& n == 0 && visible.len() > 0 ==> e.len() == 2 && e[0] == chunk_text(
                id,
                created,
                model,
                None,
                Some(visible),
                None,
                None,
                None,
            )
            &&& n == 0 && visible.len() == 0 ==> e.len() == 1
        }),
{
    let acc = Seq::<Seq<char>>::empty();
    lemma_calls_told(acc, id, created, model, calls, calls.len());
    let told = call_events(acc, id, created, model, calls, calls.len());
    let e = held_stream(id, created, model, calls, visible, usage);
    if calls.len() > 0 {
        assert forall|i: int| #![trigger calls[i]] 0 <= i < calls.len() implies tell_call(
            id,
            created,
            model,
            calls[i],
            i,
            e[2 * i],
            e[2 * i + 1],
        ) by {
            assert(told[acc.len() + 2 * i] == e[2 * i]);
            assert(told[acc.len() + 2 * i + 1] == e[2 * i + 1]);
        }
    }
}

} // verus!
