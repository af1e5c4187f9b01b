//! What a prompt holds of a conversation: everything that was said, in order, and each message in
//! a turn of its own or in the turn it goes on with.

use vstd::prelude::*;
use vstd::string::*;

use crate::server::chat::{
    awaits, call_text, calls_after, continuations, declaration, declarations, forces_call, gemma_of,
    has_calls, lemma_forward, plain_prompt, plain_system, plain_turns, priming, prompt_of,
    responses, some_tools, system_texts, system_turn, tool_message, turn_open, turns, CallV,
    MessageV, ToolV,
};
use crate::server::json::{json_read, JsonV};
use crate::text::{is_space, join, occurs_at, trim};

verus! {

/// Texts one behind the other.
pub open spec fn strung(parts: Seq<Seq<char>>) -> Seq<char>
    decreases parts.len(),
{
    if parts.len() == 0 {
        Seq::empty()
    } else {
        parts[0] + strung(parts.skip(1))
    }
}

/// The content of a message; nothing if it has none.
pub open spec fn content_of(m: MessageV) -> Seq<char> {
    match m.content {
        Some(c) => c,
        None => Seq::empty(),
    }
}

/// Whether a message is just something that the user or the model said.
pub open spec fn plain(m: MessageV) -> bool {
    &&& m.role == "user"@ || m.role == "assistant"@
    &&& m.calls matches Some(c) ==> c.len() == 0
}

/// A message in a turn of its own.
pub open spec fn own_turn(m: MessageV) -> Seq<char> {
    (if m.role == "user"@ {
        "<|turn>user\n"@
    } else {
        "<|turn>model\n"@
    }) + content_of(m) + "<turn|>\n"@
}

proof fn lemma_literals()
    ensures
        "<|turn>"@ + "user"@ + "\n"@ == "<|turn>user\n"@,
        "<|turn>"@ + "model"@ + "\n"@ == "<|turn>model\n"@,
        "<|turn>"@ + "model\n"@ == "<|turn>model\n"@,
        "<turn|>"@ + "\n"@ == "<turn|>\n"@,
        "user"@ != "assistant"@,
        "user"@ != "system"@,
        "user"@ != "tool"@,
        "assistant"@ != "system"@,
        "assistant"@ != "tool"@,
        "system"@ != "tool"@,
{
    reveal_strlit("<|turn>");
    reveal_strlit("<turn|>");
    reveal_strlit("\n");
    reveal_strlit("user");
    reveal_strlit("model");
    reveal_strlit("model\n");
    reveal_strlit("assistant");
    reveal_strlit("system");
    reveal_strlit("tool");
    reveal_strlit("<|turn>user\n");
    reveal_strlit("<|turn>model\n");
    reveal_strlit("<turn|>\n");
    assert("<|turn>"@ + "user"@ + "\n"@ =~= "<|turn>user\n"@);
    assert("<|turn>"@ + "model"@ + "\n"@ =~= "<|turn>model\n"@);
    assert("<|turn>"@ + "model\n"@ =~= "<|turn>model\n"@);
    assert("<turn|>"@ + "\n"@ =~= "<turn|>\n"@);
    assert("user"@.len() == 4 && "assistant"@.len() == 9 && "system"@.len() == 6 && "tool"@.len()
        == 4);
    assert("user"@[0] != "tool"@[0]);
}

proof fn lemma_plain_turn(p: Seq<char>, m: MessageV)
    requires
        plain(m),
    ensures
        turn_open(p, m) + "<turn|>"@ + "\n"@ == p + own_turn(m),
{
    lemma_literals();
    reveal_with_fuel(calls_after, 1);
    let role = if m.role == "assistant"@ {
        "model"@
    } else {
        "user"@
    };
    let head = p + "<|turn>"@ + role + "\n"@;
    assert(head =~= p + ("<|turn>"@ + role + "\n"@));
    assert(turn_open(p, m) =~= head + content_of(m));
    assert(turn_open(p, m) + "<turn|>"@ + "\n"@ =~= p + (("<|turn>"@ + role + "\n"@) + content_of(m)
        + ("<turn|>"@ + "\n"@)));
}

proof fn lemma_plain_turns(p: Seq<char>, ms: Seq<MessageV>, i: int)
    requires
        0 <= i <= ms.len(),
        forall|k: int| 0 <= k < ms.len() ==> plain(#[trigger] ms[k]),
    ensures
        turns(p, ms, i, false) == (
            p + strung(ms.skip(i).map_values(|m: MessageV| own_turn(m))),
            false,
        ),
    decreases ms.len() - i,
{
    lemma_literals();
    let rest = ms.skip(i).map_values(|m: MessageV| own_turn(m));
    if i < ms.len() {
        let m = ms[i];
        lemma_plain_turn(p, m);
        lemma_plain_turns(p + own_turn(m), ms, i + 1);
        assert(rest.skip(1) =~= ms.skip(i + 1).map_values(|m: MessageV| own_turn(m)));
        assert(rest[0] == own_turn(m));
        assert(p + own_turn(m) + strung(rest.skip(1)) =~= p + strung(rest));
    } else {
        assert(rest.len() == 0);
        assert(p + strung(rest) =~= p);
    }
}

proof fn lemma_no_system(ms: Seq<MessageV>)
    requires
        forall|k: int| 0 <= k < ms.len() ==> plain(#[trigger] ms[k]),
    ensures
        system_texts(ms).len() == 0,
    decreases ms.len(),
{
    lemma_literals();
    if ms.len() > 0 {
        assert(plain(ms[ms.len() - 1]));
        assert forall|k: int| 0 <= k < ms.len() - 1 implies plain(#[trigger] ms.drop_last()[k]) by {
            assert(ms.drop_last()[k] == ms[k]);
        }
        lemma_no_system(ms.drop_last());
    }
}

/// The prompt of a conversation in which only user and model spoke is their messages, each in a
/// turn of its own, and the start of a turn of the model.
pub proof fn lemma_plain_conversation(ms: Seq<MessageV>, choice: Option<JsonV>)
    requires
        forall|k: int| 0 <= k < ms.len() ==> plain(#[trigger] ms[k]),
        choice != Some(JsonV::Str("required"@)),
    ensures
        prompt_of(ms, None, choice) == strung(ms.map_values(|m: MessageV| own_turn(m)))
            + "<|turn>model\n"@,
{
    lemma_literals();
    reveal_strlit("");
    lemma_no_system(ms);
    let s = system_turn(ms, None, choice);
    assert(s =~= Seq::<char>::empty());
    lemma_plain_turns(s, ms, 0);
    assert(ms.skip(0) =~= ms);
    let t = strung(ms.map_values(|m: MessageV| own_turn(m)));
    assert(s + t =~= t);
    assert(prompt_of(ms, None, choice) =~= t + ("<|turn>"@ + "model\n"@));
}

/// The prompt of one user message is its content in a turn of the user and the start of a turn of
/// the model.
pub proof fn lemma_one_user_message(m: MessageV, c: Seq<char>)
    requires
        m.role == "user"@,
        m.content == Some(c),
        m.calls is None,
    ensures
        prompt_of(seq![m], None, None) == "<|turn>user\n"@ + c + "<turn|>\n<|turn>model\n"@,
{
    let ms = seq![m];
    lemma_plain_conversation(ms, None);
    reveal_strlit("<turn|>\n");
    reveal_strlit("<|turn>model\n");
    reveal_strlit("<turn|>\n<|turn>model\n");
    assert("<turn|>\n"@ + "<|turn>model\n"@ =~= "<turn|>\n<|turn>model\n"@);
    let t = ms.map_values(|m: MessageV| own_turn(m));
    assert(t[0] == own_turn(m));
    assert(t.skip(1) =~= Seq::<Seq<char>>::empty());
    assert(strung(t.skip(1)) =~= Seq::<char>::empty());
    assert(strung(t) =~= own_turn(m));
    assert(prompt_of(ms, None, None) =~= "<|turn>user\n"@ + c + ("<turn|>\n"@ + "<|turn>model\n"@));
}

/// Whether texts stand in `s` one after the other, in order.
pub open spec fn in_order(parts: Seq<Seq<char>>, s: Seq<char>) -> bool
    decreases parts.len(),
{
    parts.len() == 0 || exists|i: int|
        #[trigger] occurs_at(s, parts.last(), i) && in_order(parts.drop_last(), s.take(i))
}

pub proof fn lemma_in_longer(parts: Seq<Seq<char>>, s: Seq<char>, t: Seq<char>)
    requires
        in_order(parts, s),
    ensures
        in_order(parts, s + t),
{
    if parts.len() > 0 {
        let p = parts.last();
        let i = choose|i: int|
            #[trigger] occurs_at(s, p, i) && in_order(parts.drop_last(), s.take(i));
        assert((s + t).subrange(i, i + p.len()) =~= s.subrange(i, i + p.len()));
        assert((s + t).take(i) =~= s.take(i));
        assert(occurs_at(s + t, p, i));
    }
}

pub proof fn lemma_one_more(parts: Seq<Seq<char>>, s: Seq<char>, p: Seq<char>)
    requires
        in_order(parts, s),
    ensures
        in_order(parts.push(p), s + p),
{
    let n = s.len() as int;
    let more = parts.push(p);
    assert((s + p).subrange(n, n + p.len()) =~= p);
    assert((s + p).take(n) =~= s);
    assert(more.drop_last() =~= parts);
    assert(more.last() == p);
    assert(occurs_at(s + p, more.last(), n));
}

/// A call as it has to stand in a prompt.
pub open spec fn call_part(c: CallV) -> Seq<char> {
    "<|tool_call>call:"@ + c.name + (match json_read(c.arguments) {
        Some(j) => gemma_of(j),
        None => "{}"@,
    }) + "<tool_call|>"@
}

/// What a prompt has to hold of a message: of a tool its answer under its name, of the user the
/// content right behind the head of a turn, of the model the content and the calls.
pub open spec fn parts_of(m: MessageV) -> Seq<Seq<char>> {
    if m.role == "system"@ {
        Seq::empty()
    } else if m.role == "tool"@ {
        seq![
            "<|tool_response>response:"@ + (match m.name {
                Some(n) => n,
                None => "tool"@,
            }) + "{value:"@ + "<|\"|>"@ + content_of(m) + "<|\"|>"@ + "}"@ + "<tool_response|>"@,
        ]
    } else if m.role == "assistant"@ {
        seq![content_of(m)] + (match m.calls {
            Some(c) => c.map_values(|c: CallV| call_part(c)),
            None => Seq::empty(),
        })
    } else {
        seq!["<|turn>user\n"@ + content_of(m)] + (match m.calls {
            Some(c) => c.map_values(|c: CallV| call_part(c)),
            None => Seq::empty(),
        })
    }
}

/// What a prompt has to hold of messages from `i` on, in order.
pub open spec fn parts_from(ms: Seq<MessageV>, i: int) -> Seq<Seq<char>>
    decreases ms.len() - i,
{
    if 0 <= i < ms.len() {
        parts_of(ms[i]) + parts_from(ms, i + 1)
    } else {
        Seq::empty()
    }
}

proof fn lemma_call_part(c: CallV)
    ensures
        call_text(c) == call_part(c),
{
    reveal_strlit("{");
    reveal_strlit("}");
    reveal_strlit("{}");
    let none = JsonV::Object(Seq::empty());
    assert(crate::server::chat::gemma_fields(Seq::empty()) =~= Seq::<Seq<char>>::empty());
    assert(gemma_of(none) =~= "{}"@);
}

proof fn lemma_calls_in_order(
    parts: Seq<Seq<char>>,
    s: Seq<char>,
    calls: Seq<CallV>,
)
    requires
        in_order(parts, s),
    ensures
        in_order(parts + calls.map_values(|c: CallV| call_part(c)), calls_after(s, calls)),
    decreases calls.len(),
{
    let f = |c: CallV| call_part(c);
    if calls.len() > 0 {
        lemma_calls_in_order(parts, s, calls.drop_last());
        lemma_call_part(calls.last());
        let before = parts + calls.drop_last().map_values(f);
        lemma_one_more(before, calls_after(s, calls.drop_last()), call_part(calls.last()));
        assert(parts + calls.map_values(f) =~= before.push(call_part(calls.last())));
    } else {
        assert(parts + calls.map_values(f) =~= parts);
    }
}

proof fn lemma_tool_in_order(parts: Seq<Seq<char>>, s: Seq<char>, m: MessageV)
    requires
        in_order(parts, s),
        m.role == "tool"@,
    ensures
        in_order(parts + parts_of(m), s + tool_message(m)),
{
    lemma_literals();
    reveal_strlit("");
    assert(""@ =~= Seq::<char>::empty());
    assert(tool_message(m) =~= parts_of(m)[0]);
    lemma_one_more(parts, s, tool_message(m));
    assert(parts + parts_of(m) =~= parts.push(tool_message(m)));
}

/// A turn without its end: its head, the content and the calls.
proof fn lemma_turn_open(s: Seq<char>, m: MessageV)
    ensures
        ({
            let head = if m.role == "assistant"@ {
                "<|turn>model\n"@
            } else {
                "<|turn>user\n"@
            };
            turn_open(s, m) == (match m.calls {
                Some(c) => calls_after(s + head + content_of(m), c),
                None => s + head + content_of(m),
            })
        }),
{
    lemma_literals();
    let role = if m.role == "assistant"@ {
        "model"@
    } else {
        "user"@
    };
    let head = s + "<|turn>"@ + role + "\n"@;
    assert(head =~= s + ("<|turn>"@ + role + "\n"@));
    match m.content {
        Some(c) => {},
        None => {
            assert(head + content_of(m) =~= head);
        },
    }
}

proof fn lemma_turn_in_order(parts: Seq<Seq<char>>, s: Seq<char>, m: MessageV)
    requires
        in_order(parts, s),
        m.role != "tool"@,
        m.role != "system"@,
    ensures
        in_order(parts + parts_of(m), turn_open(s, m)),
{
    lemma_turn_open(s, m);
    let head = if m.role == "assistant"@ {
        "<|turn>model\n"@
    } else {
        "<|turn>user\n"@
    };
    let said = s + head + content_of(m);
    let first = if m.role == "assistant"@ {
        content_of(m)
    } else {
        head + content_of(m)
    };
    if m.role == "assistant"@ {
        lemma_in_longer(parts, s, head);
        lemma_one_more(parts, s + head, first);
    } else {
        lemma_one_more(parts, s, first);
        assert(s + first =~= said);
    }
    lemma_parts_first(parts, m, first);
    match m.calls {
        Some(c) => {
            lemma_calls_in_order(parts.push(first), said, c);
        },
        None => {},
    }
}

proof fn lemma_parts_first(parts: Seq<Seq<char>>, m: MessageV, first: Seq<char>)
    requires
        m.role != "tool"@,
        m.role != "system"@,
        first == (if m.role == "assistant"@ {
            content_of(m)
        } else {
            "<|turn>user\n"@ + content_of(m)
        }),
    ensures
        parts + parts_of(m) == (match m.calls {
            Some(c) => parts.push(first) + c.map_values(|c: CallV| call_part(c)),
            None => parts.push(first),
        }),
{
    match m.calls {
        Some(c) => {
            let more = c.map_values(|c: CallV| call_part(c));
            assert(parts_of(m) == seq![first] + more);
            assert(parts + (seq![first] + more) =~= parts.push(first) + more);
        },
        None => {
            assert(parts_of(m) =~= seq![first]);
            assert(parts + seq![first] =~= parts.push(first));
        },
    }
}

proof fn lemma_responses_in_order(
    parts: Seq<Seq<char>>,
    s: Seq<char>,
    ms: Seq<MessageV>,
    i: int,
) -> (done: Seq<Seq<char>>)
    requires
        in_order(parts, s),
        0 <= i <= ms.len(),
    ensures
        ({
            let (t, j) = responses(s, ms, i);
            in_order(done, t) && i <= j <= ms.len() && done + parts_from(ms, j) == parts
                + parts_from(ms, i)
        }),
    decreases ms.len() - i,
{
    lemma_forward(s, ms, i);
    if i < ms.len() && ms[i].role == "tool"@ {
        lemma_tool_in_order(parts, s, ms[i]);
        let done = lemma_responses_in_order(
            parts + parts_of(ms[i]),
            s + tool_message(ms[i]),
            ms,
            i + 1,
        );
        assert(parts + parts_of(ms[i]) + parts_from(ms, i + 1) =~= parts + parts_from(ms, i));
        done
    } else {
        parts
    }
}

proof fn lemma_continuations_in_order(
    parts: Seq<Seq<char>>,
    s: Seq<char>,
    ms: Seq<MessageV>,
    i: int,
) -> (done: Seq<Seq<char>>)
    requires
        in_order(parts, s),
        0 <= i <= ms.len(),
    ensures
        ({
            let (t, j) = continuations(s, ms, i);
            in_order(done, t) && i <= j <= ms.len() && done + parts_from(ms, j) == parts
                + parts_from(ms, i)
        }),
    decreases ms.len() - i,
{
    lemma_forward(s, ms, i);
    if i < ms.len() && ms[i].role == "assistant"@ && !has_calls(ms[i]) {
        lemma_literals();
        let m = ms[i];
        let t = match m.content {
            Some(c) => s + c,
            None => s,
        };
        assert(t =~= s + content_of(m));
        lemma_one_more(parts, s, content_of(m));
        assert(parts_of(m) =~= seq![content_of(m)]);
        assert(parts.push(content_of(m)) =~= parts + parts_of(m));
        let done = lemma_continuations_in_order(parts + parts_of(m), t, ms, i + 1);
        assert(parts + parts_of(m) + parts_from(ms, i + 1) =~= parts + parts_from(ms, i));
        done
    } else {
        parts
    }
}

proof fn lemma_turns_in_order(
    parts: Seq<Seq<char>>,
    s: Seq<char>,
    ms: Seq<MessageV>,
    i: int,
    open: bool,
)
    requires
        in_order(parts, s),
        0 <= i <= ms.len(),
    ensures
        in_order(parts + parts_from(ms, i), turns(s, ms, i, open).0),
    decreases ms.len() - i,
{
    lemma_literals();
    if i < ms.len() {
        let m = ms[i];
        let more = parts + parts_of(m);
        assert(more + parts_from(ms, i + 1) =~= parts + parts_from(ms, i));
        if m.role == "system"@ {
            assert(more =~= parts);
            lemma_turns_in_order(parts, s, ms, i + 1, open);
        } else if m.role == "tool"@ {
            lemma_tool_in_order(parts, s, m);
            lemma_turns_in_order(more, s + tool_message(m), ms, i + 1, open);
        } else {
            lemma_turn_in_order(parts, s, m);
            let q = turn_open(s, m);
            let end = "<turn|>"@ + "\n"@;
            if m.role == "assistant"@ && has_calls(m) {
                let d1 = lemma_responses_in_order(more, q, ms, i + 1);
                let (q1, j) = responses(q, ms, i + 1);
                let d2 = lemma_continuations_in_order(d1, q1, ms, j);
                let (q2, k) = continuations(q1, ms, j);
                if k == j {
                    lemma_turns_in_order(d2, q2, ms, j, true);
                } else {
                    lemma_in_longer(d2, q2, end);
                    assert(q2 + end =~= q2 + "<turn|>"@ + "\n"@);
                    lemma_turns_in_order(d2, q2 + "<turn|>"@ + "\n"@, ms, k, false);
                }
            } else if open && m.role != "user"@ {
                lemma_turns_in_order(more, q, ms, i + 1, true);
            } else {
                lemma_in_longer(more, q, end);
                assert(q + end =~= q + "<turn|>"@ + "\n"@);
                lemma_turns_in_order(more, q + "<turn|>"@ + "\n"@, ms, i + 1, false);
            }
        }
    } else {
        assert(parts + parts_from(ms, i) =~= parts);
    }
}

/// What a prompt has to hold of the system: the contents of its messages that are not empty.
pub open spec fn system_parts(ms: Seq<MessageV>) -> Seq<Seq<char>> {
    ms.filter(|m: MessageV| m.role == "system"@ && content_of(m).len() > 0).map_values(
        |m: MessageV| content_of(m),
    )
}

proof fn lemma_system_parts(ms: Seq<MessageV>)
    ensures
        system_texts(ms) == system_parts(ms),
    decreases ms.len(),
{
    reveal(Seq::filter);
    let keep = |m: MessageV| m.role == "system"@ && content_of(m).len() > 0;
    let f = |m: MessageV| content_of(m);
    if ms.len() > 0 {
        lemma_system_parts(ms.drop_last());
        let before = ms.drop_last().filter(keep);
        if keep(ms.last()) {
            assert(before.push(ms.last()).map_values(f) =~= before.map_values(f).push(
                content_of(ms.last()),
            ));
        }
    } else {
        assert(system_parts(ms) =~= Seq::<Seq<char>>::empty());
    }
}

pub proof fn lemma_join_in_order(
    before: Seq<Seq<char>>,
    s: Seq<char>,
    parts: Seq<Seq<char>>,
    sep: Seq<char>,
)
    requires
        in_order(before, s),
    ensures
        in_order(before + parts, s + join(parts, sep)),
    decreases parts.len(),
{
    if parts.len() == 0 {
        assert(before + parts =~= before);
        assert(s + join(parts, sep) =~= s);
    } else if parts.len() == 1 {
        lemma_one_more(before, s, parts[0]);
        assert(before + parts =~= before.push(parts[0]));
    } else {
        lemma_join_in_order(before, s, parts.drop_last(), sep);
        let t = s + join(parts.drop_last(), sep);
        lemma_in_longer(before + parts.drop_last(), t, sep);
        lemma_one_more(before + parts.drop_last(), t + sep, parts.last());
        assert(before + parts =~= (before + parts.drop_last()).push(parts.last()));
        assert(s + join(parts, sep) =~= t + sep + parts.last());
    }
}

/// How the declaration of a tool has to begin: with its name and its description.
pub open spec fn tool_part(t: ToolV) -> Seq<char> {
    "<|tool>declaration:"@ + t.name + "{description:"@ + "<|\"|>"@ + (match t.description {
        Some(d) => d,
        None => Seq::empty(),
    }) + "<|\"|>"@ + ",parameters:"@
}

pub proof fn lemma_declaration(t: ToolV) -> (rest: Seq<char>)
    ensures
        rest == (match t.parameters {
            Some(p) => crate::server::chat::schema_text(p),
            None => "{}"@,
        }) + "}"@ + "<tool|>"@,
        declaration(t) == tool_part(t) + rest,
{
    reveal_strlit("<|tool>");
    reveal_strlit("declaration:");
    reveal_strlit("<|tool>declaration:");
    reveal_strlit("");
    assert("<|tool>"@ + "declaration:"@ =~= "<|tool>declaration:"@);
    let parameters = match t.parameters {
        Some(p) => crate::server::chat::schema_text(p),
        None => "{}"@,
    };
    let rest = parameters + "}"@ + crate::server::chat::GEMMA4_TOOL_END@;
    let description = match t.description {
        Some(d) => d,
        None => ""@,
    };
    assert(declaration(t) =~= ("<|tool>"@ + "declaration:"@) + t.name + "{description:"@
        + "<|\"|>"@ + description + "<|\"|>"@ + ",parameters:"@ + rest);
    assert(declaration(t) =~= tool_part(t) + rest);
    rest
}

proof fn lemma_declarations_in_order(parts: Seq<Seq<char>>, s: Seq<char>, tools: Seq<ToolV>)
    requires
        in_order(parts, s),
    ensures
        in_order(
            parts + tools.map_values(|t: ToolV| tool_part(t)),
            s + declarations(tools),
        ),
    decreases tools.len(),
{
    let f = |t: ToolV| tool_part(t);
    if tools.len() > 0 {
        lemma_declarations_in_order(parts, s, tools.drop_last());
        let rest = lemma_declaration(tools.last());
        let before = parts + tools.drop_last().map_values(f);
        let q = s + declarations(tools.drop_last());
        lemma_one_more(before, q, tool_part(tools.last()));
        lemma_in_longer(before.push(tool_part(tools.last())), q + tool_part(tools.last()), rest);
        assert(parts + tools.map_values(f) =~= before.push(tool_part(tools.last())));
        assert(s + declarations(tools) =~= q + tool_part(tools.last()) + rest);
    } else {
        assert(parts + tools.map_values(f) =~= parts);
        assert(s + declarations(tools) =~= s);
    }
}

/// What a prompt has to hold of the tools while a call is awaited.
pub open spec fn tools_parts(ms: Seq<MessageV>, tools: Option<Seq<ToolV>>) -> Seq<Seq<char>> {
    match tools {
        Some(t) => if awaits(ms, false) {
            t.map_values(|t: ToolV| tool_part(t))
        } else {
            Seq::empty()
        },
        None => Seq::empty(),
    }
}

/// Everything that was said stands in the prompt, in order: first the contents of the system
/// messages and, while a call is awaited, the declarations of the tools; then the contents, calls
/// and answers of all other messages, the user's right behind the head of a turn.
pub proof fn lemma_everything_is_in_the_prompt(
    ms: Seq<MessageV>,
    tools: Option<Seq<ToolV>>,
    choice: Option<JsonV>,
)
    ensures
        in_order(
            system_parts(ms) + tools_parts(ms, tools) + parts_from(ms, 0),
            prompt_of(ms, tools, choice),
        ),
{
    lemma_literals();
    lemma_system_parts(ms);
    let said = system_parts(ms);
    let tp = tools_parts(ms, tools);
    let parts = said + tp;
    let s = system_turn(ms, tools, choice);
    let declare = some_tools(tools) && awaits(ms, false);
    if !declare && said.len() == 0 {
        if tools is Some && awaits(ms, false) {
            assert(tools->0.len() == 0);
        }
        assert(tp =~= Seq::<Seq<char>>::empty());
        assert(parts =~= Seq::<Seq<char>>::empty());
    } else {
        let none = Seq::<Seq<char>>::empty();
        let head = "<|turn>"@ + "system\n"@ + "<|think|>\n"@;
        lemma_join_in_order(none, head, said, "\n\n"@);
        assert(none + said =~= said);
        let j = head + join(said, "\n\n"@);
        let k = if said.len() > 0 && declare {
            j + "\n"@
        } else {
            j
        };
        if said.len() > 0 && declare {
            lemma_in_longer(said, j, "\n"@);
        }
        if said.len() == 0 {
            assert(j =~= head);
        }
        let d = if declare {
            k + declarations(tools->0)
        } else {
            k
        };
        if declare {
            lemma_declarations_in_order(said, k, tools->0);
        } else {
            if tools is Some && awaits(ms, false) {
                assert(tools->0.len() == 0);
            }
            assert(tp =~= none);
            assert(parts =~= said);
        }
        assert(in_order(parts, d));
        let forced = "\nYou must call a tool to answer this request."@;
        let e = if forces_call(ms, tools, choice) {
            d + forced
        } else {
            d
        };
        lemma_in_longer(parts, d, forced);
        let end = "<turn|>"@ + "\n"@;
        lemma_in_longer(parts, e, end);
        assert(e + end =~= e + "<turn|>"@ + "\n"@);
        assert(s == e + "<turn|>"@ + "\n"@);
    }
    assert(in_order(parts, s));
    lemma_turns_in_order(parts, s, ms, 0, false);
    let (p, open) = turns(s, ms, 0, false);
    let all = parts + parts_from(ms, 0);
    let last = priming(ms, tools, choice);
    if open {
        lemma_in_longer(all, p, last);
    } else {
        lemma_in_longer(all, p, "<|turn>"@ + "model\n"@ + last);
        assert(p + ("<|turn>"@ + "model\n"@ + last) =~= p + "<|turn>"@ + "model\n"@ + last);
    }
}

/// Where the user spoke last and said something, a call is awaited: the tools are declared.
pub proof fn lemma_tools_are_declared(ms: Seq<MessageV>, tools: Seq<ToolV>, i: int)
    requires
        ms.len() > 0,
        ms.last().role == "user"@,
        ms.last().content matches Some(c) ==> exists|k: int|
            0 <= k < c.len() && !is_space(#[trigger] c[k]),
        0 <= i < tools.len(),
    ensures
        tools_parts(ms, Some(tools))[i] == tool_part(tools[i]),
        tools_parts(ms, Some(tools)).len() == tools.len(),
{
    lemma_literals();
    if ms.last().content is Some {
        let c = ms.last().content->0;
        crate::server::answers::lemma_trimmed_is_core(c);
        let k = choose|k: int| 0 <= k < c.len() && !is_space(#[trigger] c[k]);
        assert(trim(c).len() > 0);
    }
    assert(awaits(ms, false));
}

/// The prompt of messages of role and content holds all contents, in order, the system's first.
pub proof fn lemma_plain_prompt(ms: Seq<(&str, &str)>)
    requires
        forall|k: int| 0 <= k < ms.len() ==> (#[trigger] ms[k]).0@ != "system"@,
    ensures
        plain_prompt(ms) == strung(
            ms.map_values(
                |m: (&str, &str)|
                    (if m.0@ == "assistant"@ {
                        "<|turn>model\n"@
                    } else {
                        "<|turn>user\n"@
                    }) + m.1@ + "<turn|>\n"@,
            ),
        ) + "<|turn>model\n"@,
{
    lemma_plain_turns_text(ms);
    reveal_strlit("");
    lemma_plain_no_system(ms);
    let t = plain_turns(ms);
    assert(""@ + t =~= t);
}

proof fn lemma_plain_no_system(ms: Seq<(&str, &str)>)
    requires
        forall|k: int| 0 <= k < ms.len() ==> (#[trigger] ms[k]).0@ != "system"@,
    ensures
        plain_system(ms).len() == 0,
    decreases ms.len(),
{
    if ms.len() > 0 {
        assert(ms[ms.len() - 1].0@ != "system"@);
        assert forall|k: int| 0 <= k < ms.len() - 1 implies (#[trigger] ms.drop_last()[k]).0@
            != "system"@ by {
            assert(ms.drop_last()[k] == ms[k]);
        }
        lemma_plain_no_system(ms.drop_last());
    }
}

proof fn lemma_strung_push(parts: Seq<Seq<char>>, p: Seq<char>)
    ensures
        strung(parts.push(p)) == strung(parts) + p,
    decreases parts.len(),
{
    let all = parts.push(p);
    if parts.len() > 0 {
        lemma_strung_push(parts.skip(1), p);
        assert(all.skip(1) =~= parts.skip(1).push(p));
        assert(all[0] == parts[0]);
        assert(strung(all) =~= strung(parts) + p);
    } else {
        assert(all.skip(1) =~= Seq::<Seq<char>>::empty());
        assert(strung(all.skip(1)) =~= Seq::<char>::empty());
        assert(strung(parts) =~= Seq::<char>::empty());
        assert(strung(all) =~= strung(parts) + p);
    }
}

proof fn lemma_plain_turns_text(ms: Seq<(&str, &str)>)
    requires
        forall|k: int| 0 <= k < ms.len() ==> (#[trigger] ms[k]).0@ != "system"@,
    ensures
        plain_turns(ms) == strung(
            ms.map_values(
                |m: (&str, &str)|
                    (if m.0@ == "assistant"@ {
                        "<|turn>model\n"@
                    } else {
                        "<|turn>user\n"@
                    }) + m.1@ + "<turn|>\n"@,
            ),
        ),
    decreases ms.len(),
{
    lemma_literals();
    let f = |m: (&str, &str)|
        (if m.0@ == "assistant"@ {
            "<|turn>model\n"@
        } else {
            "<|turn>user\n"@
        }) + m.1@ + "<turn|>\n"@;
    if ms.len() > 0 {
        let before = ms.drop_last();
        let m = ms.last();
        assert(ms[ms.len() - 1].0@ != "system"@);
        assert forall|k: int| 0 <= k < before.len() implies (#[trigger] before[k]).0@
            != "system"@ by {
            assert(before[k] == ms[k]);
        }
        lemma_plain_turns_text(before);
        assert(ms.map_values(f) =~= before.map_values(f).push(f(m)));
        lemma_strung_push(before.map_values(f), f(m));
        let role = if m.0@ == "assistant"@ {
            "model"@
        } else {
            "user"@
        };
        assert(plain_turns(ms) =~= plain_turns(before) + (("<|turn>"@ + role + "\n"@) + m.1@
            + "<turn|>\n"@));
    } else {
        assert(ms.map_values(f) =~= Seq::<Seq<char>>::empty());
    }
}

} // verus!
