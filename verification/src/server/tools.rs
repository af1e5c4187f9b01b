//! Tool calls: read from generated text, or inferred from the conversation.

use vstd::prelude::*;
use vstd::string::*;

use crate::server::arguments::{
    flat_fields, flat_value, lemma_body, lemma_member, lemma_new_field, member_text, members,
    value_text,
};
use crate::server::channel::{NATIVE_TOOL_CALL_SUFFIX, NATIVE_TOOL_CALL_TRIGGER};
use crate::server::chat::{
    gemma_of, is_text, messages_view, opt_json, opt_tools, should_force_tool_call, tools_view,
    ChatMessage, FunctionCall, MessageV, Tool, ToolCall, ToolV, forces_call,
};
use crate::server::json::{
    double_written, field_view, fields_view, json_read, json_written, parse_json, plain_string,
    with_field, write_double, write_json, Field, FieldV, Json, JsonV,
};
use crate::text::{
    chars_of, contains, cut, find, find_str, has_str, hex_digit, is_space, is_str, lower, lowered,
    starts_with, starts_with_str, string_of, text_of, texts, trim, trimmed,
};

verus! {

/// The content of the last user message, if it has any.
pub open spec fn last_user(ms: Seq<MessageV>) -> Option<Seq<char>>
    decreases ms.len(),
{
    if ms.len() == 0 {
        None
    } else if ms.last().role == "user"@ {
        ms.last().content
    } else {
        last_user(ms.drop_last())
    }
}

pub fn last_user_content(messages: &Vec<ChatMessage>) -> (r: Option<&String>)
    ensures
        match r {
            Some(c) => last_user(messages_view(messages@)) == Some(c@),
            None => last_user(messages_view(messages@)) is None,
        },
{
    let ghost all = messages_view(messages@);
    let mut i: usize = messages.len();
    assert(all.take(all.len() as int) =~= all);
    while i > 0
        invariant
            i <= messages@.len(),
            all == messages_view(messages@),
            last_user(all) == last_user(all.take(i as int)),
        decreases i,
    {
        assert(all.take(i as int).drop_last() =~= all.take(i - 1));
        assert(all.take(i as int).last() == messages@[i - 1]@);
        if is_text(messages[i - 1].role.as_str(), "user") {
            return messages[i - 1].content.as_ref();
        }
        i -= 1;
    }
    None
}

/// A text up to its first white space.
pub open spec fn first_word(s: Seq<char>) -> Seq<char>
    decreases s.len(),
{
    if s.len() == 0 || is_space(s[0]) {
        Seq::empty()
    } else {
        seq![s[0]] + first_word(s.skip(1))
    }
}

/// Whether a character ends a sentence or a clause.
#[verifier::allow_in_spec]
pub fn is_stop_mark(ch: char) -> bool
    returns
        ch == '.' || ch == ',' || ch == ';' || ch == ':',
{
    ch == '.' || ch == ',' || ch == ';' || ch == ':'
}

/// A text without the stop marks at its end.
pub open spec fn without_stop_marks(s: Seq<char>) -> Seq<char>
    decreases s.len(),
{
    if s.len() > 0 && is_stop_mark(s.last()) {
        without_stop_marks(s.drop_last())
    } else {
        s
    }
}

/// What follows the first `@`, up to white space, without stop marks; nothing if that is empty
/// or begins with a quote.
pub open spec fn bare_path(s: Seq<char>) -> Option<Seq<char>> {
    match find(s, "@"@, 0) {
        None => None,
        Some(at) => {
            let rest = s.skip(at + 1);
            let path = without_stop_marks(first_word(rest));
            if starts_with(rest, "\""@) || path.len() == 0 {
                None
            } else {
                Some(path)
            }
        },
    }
}

/// The path of a file reference, `@"path"` or `@path`. A quoted path that is never closed is no
/// reference at all; an empty one is passed over.
pub open spec fn at_path(s: Seq<char>) -> Option<Seq<char>> {
    match find(s, "@\""@, 0) {
        None => bare_path(s),
        Some(start) => {
            let rest = s.skip(start + 2);
            match find(rest, "\""@, 0) {
                None => None,
                Some(end) => {
                    let path = trim(rest.take(end));
                    if path.len() > 0 {
                        Some(path)
                    } else {
                        bare_path(s)
                    }
                },
            }
        },
    }
}

fn word_end(v: &Vec<char>) -> (r: usize)
    ensures
        r <= v@.len(),
        v@.take(r as int) == first_word(v@),
{
    let mut i: usize = 0;
    assert(v@.skip(0) =~= v@);
    assert(v@.take(0) + first_word(v@) =~= first_word(v@));
    while i < v.len() && !is_space(v[i])
        invariant
            i <= v@.len(),
            first_word(v@) == v@.take(i as int) + first_word(v@.skip(i as int)),
        decreases v@.len() - i,
    {
        let ghost t = v@.skip(i as int);
        assert(t.skip(1) =~= v@.skip(i + 1));
        assert(v@.take(i + 1) + first_word(v@.skip(i + 1)) =~= v@.take(i as int) + (seq![t[0]]
            + first_word(t.skip(1))));
        i += 1;
    }
    assert(first_word(v@.skip(i as int)) =~= Seq::<char>::empty());
    assert(v@.take(i as int) + Seq::<char>::empty() =~= v@.take(i as int));
    i
}

fn find_bare_path(v: &Vec<char>) -> (r: Option<String>)
    ensures
        match r {
            Some(p) => bare_path(v@) == Some(p@),
            None => bare_path(v@) is None,
        },
{
    proof {
        reveal_strlit("@");
    }
    match find_str(v, "@", 0) {
        None => None,
        Some(at) => {
            let rest = cut(v, at + 1, v.len());
            assert(rest@ =~= v@.skip(at + 1));
            if starts_with_str(&rest, "\"") {
                return None;
            }
            let end: usize = word_end(&rest);
            let mut n: usize = end;
            let ghost word = first_word(rest@);
            assert(rest@.take(n as int) == word);
            while n > 0 && is_stop_mark(rest[n - 1])
                invariant
                    n <= end <= rest@.len(),
                    without_stop_marks(word) == without_stop_marks(rest@.take(n as int)),
                decreases n,
            {
                assert(rest@.take(n as int).drop_last() =~= rest@.take(n - 1));
                n -= 1;
            }
            if n == 0 {
                return None;
            }
            let path = string_of(&rest, 0, n);
            assert(path@ =~= rest@.take(n as int));
            Some(path)
        },
    }
}

/// Finds a file reference in a message.
pub fn extract_at_file_path(content: &str) -> (r: Option<String>)
    ensures
        match r {
            Some(p) => at_path(content@) == Some(p@),
            None => at_path(content@) is None,
        },
{
    proof {
        reveal_strlit("@\"");
    }
    let v = chars_of(content);
    if let Some(start) = find_str(&v, "@\"", 0) {
        let rest = cut(&v, start + 2, v.len());
        assert(rest@ =~= v@.skip(start + 2));
        match find_str(&rest, "\"", 0) {
            None => {
                return None;
            },
            Some(end) => {
                let inner = cut(&rest, 0, end);
                assert(inner@ =~= rest@.take(end as int));
                let path = trimmed(&inner);
                if path.len() > 0 {
                    return Some(text_of(&path));
                }
            },
        }
    }
    find_bare_path(&v)
}

/// Whether the user asks for a listing of files.
pub open spec fn wants_listing(ms: Seq<MessageV>) -> bool {
    match last_user(ms) {
        None => false,
        Some(c) => {
            let l = lower(c);
            ||| contains(l, "list file"@)
            ||| contains(l, "list files"@)
            ||| contains(l, "list dir"@)
            ||| contains(l, "list directory"@)
            ||| trim(l) == "ls"@
        },
    }
}

pub fn user_wants_directory_listing(messages: &Vec<ChatMessage>) -> (r: bool)
    ensures
        r == wants_listing(messages_view(messages@)),
{
    match last_user_content(messages) {
        None => false,
        Some(c) => {
            let l = lowered(&chars_of(c.as_str()));
            has_str(&l, "list file") || has_str(&l, "list files") || has_str(&l, "list dir")
                || has_str(&l, "list directory") || is_str(&trimmed(&l), "ls")
        },
    }
}

/// Whether the user asks for a file to be read.
pub open spec fn implies_read(ms: Seq<MessageV>) -> bool {
    match last_user(ms) {
        None => false,
        Some(c) => {
            let l = lower(c);
            ||| at_path(c) is Some
            ||| contains(l, "summar"@)
            ||| contains(l, "read file"@)
            ||| contains(l, "read the file"@)
        },
    }
}

pub fn user_message_implies_read(messages: &Vec<ChatMessage>) -> (r: bool)
    ensures
        r == implies_read(messages_view(messages@)),
{
    match last_user_content(messages) {
        None => false,
        Some(c) => {
            if extract_at_file_path(c.as_str()).is_some() {
                return true;
            }
            let l = lowered(&chars_of(c.as_str()));
            has_str(&l, "summar") || has_str(&l, "read file") || has_str(&l, "read the file")
        },
    }
}

/// A call by name and arguments.
pub ghost struct WantedCall {
    pub name: Seq<char>,
    pub args: JsonV,
}

/// A call by name and arguments, before it has an identifier.
#[derive(Debug)]
pub struct PlannedCall {
    pub name: String,
    pub args: Json,
}

impl View for PlannedCall {
    type V = WantedCall;

    open spec fn view(&self) -> WantedCall {
        WantedCall { name: self.name@, args: self.args@ }
    }
}

pub open spec fn planned_view(v: Seq<PlannedCall>) -> Seq<WantedCall> {
    v.map_values(|c: PlannedCall| c@)
}

/// An object of one string.
pub open spec fn one_string(key: Seq<char>, value: Seq<char>) -> JsonV {
    JsonV::Object(seq![FieldV { key, value: JsonV::Str(value) }])
}

fn one_string_object(key: &str, value: &str) -> (r: Json)
    ensures
        r@ == one_string(key@, value@),
{
    let mut fields: Vec<Field> = Vec::new();
    fields.push(Field { key: String::from_str(key), value: Json::Str(String::from_str(value)) });
    let ghost f = fields@[0];
    assert(f.value@ == JsonV::Str(value@));
    assert(fields_view(fields@) =~= seq![FieldV { key: key@, value: JsonV::Str(value@) }]);
    Json::Object(fields)
}

/// Whether a tool has this name.
pub open spec fn offers(tools: Seq<ToolV>, name: Seq<char>) -> bool {
    exists|i: int| 0 <= i < tools.len() && (#[trigger] tools[i]).name == name
}

fn has_tool(tools: &Vec<Tool>, name: &str) -> (r: bool)
    ensures
        r == offers(tools_view(tools@), name@),
{
    let ghost all = tools_view(tools@);
    let mut i: usize = 0;
    while i < tools.len()
        invariant
            i <= tools@.len(),
            all == tools_view(tools@),
            forall|k: int| 0 <= k < i ==> (#[trigger] all[k]).name != name@,
        decreases tools@.len() - i,
    {
        assert(all[i as int] == tools@[i as int]@);
        if is_text(tools[i].function.name.as_str(), name) {
            return true;
        }
        i += 1;
    }
    false
}

/// The call that the last user message asks for, without the model: a listing through `bash`, or
/// a referenced file through `read`.
pub open spec fn inferred_call(ms: Seq<MessageV>, tools: Option<Seq<ToolV>>) -> Option<WantedCall> {
    match tools {
        None => None,
        Some(t) => if offers(t, "bash"@) && wants_listing(ms) {
            Some(WantedCall { name: "bash"@, args: one_string("command"@, "ls -F"@) })
        } else if offers(t, "read"@) && implies_read(ms) {
            match last_user(ms) {
                Some(c) => match at_path(c) {
                    Some(path) => Some(
                        WantedCall { name: "read"@, args: one_string("path"@, path) },
                    ),
                    None => None,
                },
                None => None,
            }
        } else {
            None
        },
    }
}

pub fn infer_tool_call_from_context(
    messages: &Vec<ChatMessage>,
    tools: Option<&Vec<Tool>>,
) -> (r: Option<PlannedCall>)
    ensures
        match r {
            Some(c) => inferred_call(messages_view(messages@), opt_tools(tools)) == Some(c@),
            None => inferred_call(messages_view(messages@), opt_tools(tools)) is None,
        },
{
    let tools = match tools {
        Some(t) => t,
        None => {
            return None;
        },
    };
    if has_tool(tools, "bash") && user_wants_directory_listing(messages) {
        return Some(
            PlannedCall {
                name: String::from_str("bash"),
                args: one_string_object("command", "ls -F"),
            },
        );
    }
    if has_tool(tools, "read") && user_message_implies_read(messages) {
        if let Some(c) = last_user_content(messages) {
            if let Some(path) = extract_at_file_path(c.as_str()) {
                return Some(
                    PlannedCall {
                        name: String::from_str("read"),
                        args: one_string_object("path", path.as_str()),
                    },
                );
            }
        }
    }
    None
}

/// The marker around strings in the arguments of a call.
pub const GEMMA4_STR: &'static str = "<|\"|>";

/// Marked strings as JSON strings; none if a marker is never closed.
pub open spec fn unmarked(s: Seq<char>) -> Option<Seq<char>>
    decreases s.len(),
{
    match find(s, GEMMA4_STR@, 0) {
        Some(i) if 0 <= i && i + GEMMA4_STR@.len() <= s.len() && GEMMA4_STR@.len() > 0 => {
            let after = s.skip(i + GEMMA4_STR@.len());
            match find(after, GEMMA4_STR@, 0) {
                Some(e) if 0 <= e && e + GEMMA4_STR@.len() <= after.len() => match unmarked(
                    after.skip(e + GEMMA4_STR@.len()),
                ) {
                    Some(t) => Some(s.take(i) + "\""@ + after.take(e) + "\""@ + t),
                    None => None,
                },
                _ => None,
            }
        },
        _ => Some(s),
    }
}

fn unmark(dict: Vec<char>) -> (r: Option<Vec<char>>)
    ensures
        match r {
            Some(t) => unmarked(dict@) == Some(t@),
            None => unmarked(dict@) is None,
        },
{
    proof {
        reveal_strlit("<|\"|>");
        reveal_strlit("\"");
    }
    let mark = chars_of(GEMMA4_STR);
    let mut out: Vec<char> = Vec::new();
    let mut rest: Vec<char> = dict;
    assert(unmarked(dict@) is Some ==> out@ + unmarked(rest@)->0 =~= unmarked(dict@)->0);
    loop
        invariant
            mark@ == GEMMA4_STR@,
            GEMMA4_STR@.len() == 5,
            "\""@ =~= seq!['"'],
            unmarked(dict@) is Some <==> unmarked(rest@) is Some,
            unmarked(dict@) is Some ==> out@ + unmarked(rest@)->0 == unmarked(dict@)->0,
        decreases rest@.len(),
    {
        match find_str(&rest, GEMMA4_STR, 0) {
            None => {
                let ghost before = out@;
                let ghost tail = rest@;
                out.append(&mut rest);
                assert(out@ =~= before + tail);
                return Some(out);
            },
            Some(i) => {
                let mut head = cut(&rest, 0, i);
                let after = cut(&rest, i + mark.len(), rest.len());
                let ghost h = head@;
                assert(h =~= rest@.take(i as int));
                assert(after@ =~= rest@.skip(i + 5));
                match find_str(&after, GEMMA4_STR, 0) {
                    None => {
                        return None;
                    },
                    Some(e) => {
                        let mut inner = cut(&after, 0, e);
                        let ghost n = inner@;
                        assert(n =~= after@.take(e as int));
                        let tail = cut(&after, e + mark.len(), after.len());
                        assert(tail@ =~= after@.skip(e + 5));
                        let ghost before = out@;
                        out.append(&mut head);
                        out.push('"');
                        out.append(&mut inner);
                        out.push('"');
                        proof {
                            if unmarked(dict@) is Some {
                                let t = unmarked(tail@)->0;
                                assert(out@ + t =~= before + (h + "\""@ + n + "\""@ + t));
                            }
                        }
                        rest = tail;
                    },
                }
            },
        }
    }
}

/// A text without the characters `ch` at its start.
pub open spec fn strip_left(s: Seq<char>, ch: char) -> Seq<char>
    decreases s.len(),
{
    if s.len() > 0 && s[0] == ch {
        strip_left(s.skip(1), ch)
    } else {
        s
    }
}

/// A text without the characters `ch` at its end.
pub open spec fn strip_right(s: Seq<char>, ch: char) -> Seq<char>
    decreases s.len(),
{
    if s.len() > 0 && s.last() == ch {
        strip_right(s.drop_last(), ch)
    } else {
        s
    }
}

/// Strips one character at the start and another at the end.
fn strip(v: &Vec<char>, left: char, right: char) -> (r: Vec<char>)
    ensures
        r@ == strip_right(strip_left(v@, left), right),
{
    let mut a: usize = 0;
    assert(v@.skip(0) =~= v@);
    while a < v.len() && v[a] == left
        invariant
            a <= v@.len(),
            strip_left(v@, left) == strip_left(v@.skip(a as int), left),
        decreases v@.len() - a,
    {
        assert(v@.skip(a as int).skip(1) =~= v@.skip(a + 1));
        a += 1;
    }
    let ghost t = v@.skip(a as int);
    assert(strip_left(v@, left) == t);
    let mut b: usize = v.len();
    assert(v@.subrange(a as int, b as int) =~= t);
    while b > a && v[b - 1] == right
        invariant
            a <= b <= v@.len(),
            strip_right(t, right) == strip_right(v@.subrange(a as int, b as int), right),
        decreases b,
    {
        assert(v@.subrange(a as int, b as int).drop_last() =~= v@.subrange(a as int, b - 1));
        b -= 1;
    }
    cut(v, a, b)
}

/// The value that one argument stands for: a JSON string, a truth value, null, a number, or the
/// text itself. None if a string is malformed.
pub open spec fn arg_value(value: Seq<char>) -> Option<JsonV> {
    if starts_with(value, "\""@) {
        json_read(value)
    } else if value == "true"@ {
        Some(JsonV::Bool(true))
    } else if value == "false"@ {
        Some(JsonV::Bool(false))
    } else if value == "null"@ {
        Some(JsonV::Null)
    } else {
        match double_written(value) {
            Some(t) => Some(JsonV::Double(t)),
            None => Some(JsonV::Str(value)),
        }
    }
}

/// The words of truth values and null are read as what they are.
proof fn lemma_flat_words()
    ensures
        forall|v: JsonV|
            flat_value(v) ==> starts_with(#[trigger] value_text(v, false), "\""@) == (v is Str) && (
            v is Str || arg_value(value_text(v, false)) == Some(v)),
{
    reveal_strlit("true");
    reveal_strlit("false");
    reveal_strlit("null");
    reveal_strlit("\"");
    assert forall|v: JsonV| flat_value(v) implies starts_with(
        #[trigger] value_text(v, false),
        "\""@,
    ) == (v is Str) && (v is Str || arg_value(value_text(v, false)) == Some(v)) by {
        let t = value_text(v, false);
        if v is Str {
            assert(t.subrange(0, 1) =~= "\""@);
        }
        if starts_with(t, "\""@) {
            assert(t.subrange(0, 1)[0] == '"');
            assert(t[0] == '"');
        }
        assert("true"@.len() == 4 && "null"@.len() == 4 && "true"@[0] != "null"@[0]);
    }
}

/// A text that begins with a quote is that of a flat string, if of any flat value.
proof fn lemma_flat_strings(t: Seq<char>)
    requires
        plain_string(t) matches Some(s) ==> json_read(t) == Some(JsonV::Str(s)),
        starts_with(t, "\""@),
    ensures
        forall|v: JsonV|
            flat_value(v) && t == #[trigger] value_text(v, false) ==> arg_value(t) == Some(v),
{
    lemma_flat_words();
    assert forall|v: JsonV| flat_value(v) && t == #[trigger] value_text(
        v,
        false,
    ) implies arg_value(t) == Some(v) by {
        match v {
            JsonV::Str(s) => {
                assert(t.subrange(1, t.len() - 1) =~= s);
                assert(plain_string(t) == Some(s));
            },
            _ => {},
        }
    }
}

fn read_arg(value: &Vec<char>) -> (r: Option<Json>)
    ensures
        match r {
            Some(j) => arg_value(value@) == Some(j@),
            None => arg_value(value@) is None,
        },
        forall|v: JsonV|
            flat_value(v)
                && value@ == #[trigger] value_text(v, false) ==> arg_value(value@) == Some(
                v,
            ),
{
    proof {
        lemma_flat_words();
    }
    proof {
        reveal_strlit("true");
        reveal_strlit("false");
    }
    let s = text_of(value);
    if starts_with_str(value, "\"") {
        let r = parse_json(s.as_str());
        proof {
            lemma_flat_strings(value@);
        }
        r
    } else if is_str(value, "true") {
        Some(Json::Bool(true))
    } else if is_str(value, "false") {
        Some(Json::Bool(false))
    } else if is_str(value, "null") {
        Some(Json::Null)
    } else {
        match write_double(s.as_str()) {
            Some(t) => Some(Json::Double(t)),
            None => Some(Json::Str(s)),
        }
    }
}

/// The members after those of `acc`, one for each `key:value` between commas. None if one of
/// them has no colon or no value.
pub open spec fn arg_fields(body: Seq<char>, acc: Seq<FieldV>) -> Option<Seq<FieldV>>
    decreases body.len(),
{
    let (pair, rest) = match find(body, ","@, 0) {
        Some(i) if 0 <= i < body.len() => (body.take(i), Some(body.skip(i + 1))),
        _ => (body, None),
    };
    match find(pair, ":"@, 0) {
        None => None,
        Some(c) => {
            let key = strip_right(strip_left(trim(pair.take(c)), '"'), '"');
            match arg_value(trim(pair.skip(c + 1))) {
                None => None,
                Some(v) => match rest {
                    None => Some(with_field(acc, key, v)),
                    Some(r) => arg_fields(r, with_field(acc, key, v)),
                },
            }
        },
    }
}

fn put_field(fields: &mut Vec<Field>, key: String, value: Json)
    ensures
        fields_view(final(fields)@) == with_field(fields_view(old(fields)@), key@, value@),
{
    let ghost all = fields_view(fields@);
    let ghost fv = FieldV { key: key@, value: value@ };
    let mut i: usize = 0;
    assert(all.skip(0) =~= all);
    assert(all.take(0) + with_field(all.skip(0), key@, value@) =~= with_field(all, key@, value@));
    while i < fields.len()
        invariant
            i <= fields@.len(),
            all == fields_view(old(fields)@),
            all == fields_view(fields@),
            fv == (FieldV { key: key@, value: value@ }),
            with_field(all, key@, value@) == all.take(i as int) + with_field(
                all.skip(i as int),
                key@,
                value@,
            ),
        decreases fields@.len() - i,
    {
        let ghost t = all.skip(i as int);
        assert(t[0] == field_view(fields@[i as int]));
        assert(t.skip(1) =~= all.skip(i + 1));
        if is_text(fields[i].key.as_str(), key.as_str()) {
            let f = Field { key, value };
            let ghost before = fields@;
            fields.set(i, f);
            proof {
                assert(field_view(f) == fv);
                assert(fields@ == before.update(i as int, f));
                assert(fields_view(fields@) =~= all.take(i as int) + (seq![fv] + t.skip(1)));
            }
            return;
        }
        assert(all.take(i + 1) + with_field(all.skip(i + 1), key@, value@) =~= all.take(i as int)
            + (seq![t[0]] + with_field(t.skip(1), key@, value@)));
        i += 1;
    }
    let ghost before = fields@;
    let f = Field { key, value };
    fields.push(f);
    proof {
        assert(field_view(f) == fv);
        assert(all.skip(all.len() as int) =~= Seq::<FieldV>::empty());
        assert(fields_view(fields@) =~= all.take(all.len() as int) + seq![fv]);
    }
}

/// The arguments of a call: its marked strings turned into JSON strings, braces taken off, and
/// one member for each pair.
pub open spec fn dict_value(dict: Seq<char>) -> Option<JsonV> {
    match unmarked(trim(dict)) {
        None => None,
        Some(out) => {
            let body = strip_right(strip_left(trim(out), '{'), '}');
            if body.len() == 0 {
                Some(JsonV::Object(Seq::empty()))
            } else {
                match arg_fields(body, Seq::empty()) {
                    None => None,
                    Some(f) => Some(JsonV::Object(f)),
                }
            }
        },
    }
}

/// Reads the arguments of a call. Flat arguments that were written for the template are read back.
pub fn gemma4_dict_to_json_object(dict: &Vec<char>) -> (r: Option<Json>)
    ensures
        match r {
            Some(j) => dict_value(dict@) == Some(j@),
            None => dict_value(dict@) is None,
        },
        forall|o: Seq<FieldV>|
            flat_fields(o) && dict@ == #[trigger] gemma_of(JsonV::Object(o)) ==> (r matches Some(j)
                && j@ == JsonV::Object(o)),
{
    proof {
        reveal_strlit(",");
        reveal_strlit(":");
        assert forall|o: Seq<FieldV>|
            flat_fields(o) && dict@ == #[trigger] gemma_of(JsonV::Object(o)) implies (unmarked(
            trim(dict@),
        ) matches Some(out) && strip_right(strip_left(trim(out), '{'), '}') == members(o, false, 0))
            && (o.len() > 0 ==> members(o, false, 0).len() > 0) by {
            lemma_body(o);
        }
    }
    let out = match unmark(trimmed(dict)) {
        Some(t) => t,
        None => {
            return None;
        },
    };
    let mut body: Vec<char> = strip(&trimmed(&out), '{', '}');
    let mut fields: Vec<Field> = Vec::new();
    assert(fields_view(fields@) =~= Seq::<FieldV>::empty());
    if body.is_empty() {
        assert forall|o: Seq<FieldV>|
            flat_fields(o) && dict@ == #[trigger] gemma_of(JsonV::Object(o)) implies o
            == Seq::<FieldV>::empty() by {
            assert(o =~= Seq::<FieldV>::empty());
        }
        return Some(Json::Object(fields));
    }
    let ghost goal = arg_fields(body@, Seq::empty());
    let ghost mut k: int = 0;
    assert forall|o: Seq<FieldV>|
        flat_fields(o) && dict@ == #[trigger] gemma_of(JsonV::Object(o)) implies 0 < o.len()
        && o.take(0) == Seq::<FieldV>::empty() by {
        assert(o.take(0) =~= Seq::<FieldV>::empty());
        if o.len() == 0 {
            assert(members(o, false, 0).len() == 0);
        }
    }
    loop
        invariant
            ","@.len() == 1,
            ":"@.len() == 1,
            goal == arg_fields(body@, fields_view(fields@)),
            dict_value(dict@) == (match goal {
                None => None::<JsonV>,
                Some(f) => Some(JsonV::Object(f)),
            }),
            0 <= k,
            forall|o: Seq<FieldV>|
                flat_fields(o) && dict@ == #[trigger] gemma_of(JsonV::Object(o)) ==> k < o.len()
                    && body@ == members(o, false, k) && fields_view(fields@) == o.take(k),
        decreases body@.len(),
    {
        proof {
            assert forall|o: Seq<FieldV>|
                flat_fields(o) && dict@ == #[trigger] gemma_of(JsonV::Object(o)) implies
                is_member(o, k, body@) by {
                lemma_member(o, k);
            }
        }
        let (pair, rest) = match find_str(&body, ",", 0) {
            Some(i) => {
                let head = cut(&body, 0, i);
                let tail = cut(&body, i + 1, body.len());
                assert(head@ =~= body@.take(i as int));
                assert(tail@ =~= body@.skip(i + 1));
                (head, Some(tail))
            },
            None => (cut(&body, 0, body.len()), None),
        };
        assert(rest is None ==> pair@ =~= body@);
        match find_str(&pair, ":", 0) {
            None => {
                return None;
            },
            Some(at) => {
                let h = cut(&pair, 0, at);
                let w = cut(&pair, at + 1, pair.len());
                assert(h@ =~= pair@.take(at as int));
                assert(w@ =~= pair@.skip(at + 1));
                let key = text_of(&strip(&trimmed(&h), '"', '"'));
                let text = trimmed(&w);
                match read_arg(&text) {
                    None => {
                        return None;
                    },
                    Some(value) => {
                        let ghost before = fields_view(fields@);
                        let ghost put = FieldV { key: key@, value: value@ };
                        put_field(&mut fields, key, value);
                        proof {
                            assert forall|o: Seq<FieldV>|
                                flat_fields(o) && dict@ == #[trigger] gemma_of(
                                    JsonV::Object(o),
                                ) implies fields_view(fields@) == o.take(k + 1) && (match rest {
                                Some(t) => k + 1 < o.len() && t@ == members(o, false, k + 1),
                                None => k + 1 == o.len(),
                            }) by {
                                assert(is_member(o, k, body@));
                                assert(text@ == value_text(o[k].value, false));
                                assert(put == o[k]);
                                assert forall|i: int| 0 <= i < before.len() implies (#[trigger]
                                before[i]).key != put.key by {
                                    assert(before[i] == o[i]);
                                    assert(o[i].key != o[k].key);
                                }
                                lemma_new_field(before, put.key, put.value);
                                assert(o.take(k).push(o[k]) =~= o.take(k + 1));
                            }
                            k = k + 1;
                        }
                        match rest {
                            None => {
                                proof {
                                    assert forall|o: Seq<FieldV>|
                                        flat_fields(o) && dict@ == #[trigger] gemma_of(
                                            JsonV::Object(o),
                                        ) implies fields_view(fields@) == o by {
                                        assert(o.take(o.len() as int) =~= o);
                                    }
                                }
                                return Some(Json::Object(fields));
                            },
                            Some(r) => {
                                body = r;
                            },
                        }
                    },
                }
            },
        }
    }
}

/// How a member of flat arguments stands at the start of a text.
spec fn is_member(o: Seq<FieldV>, k: int, body: Seq<char>) -> bool {
    let pair = member_text(o[k], false);
    &&& if k + 1 < o.len() {
        &&& find(body, ","@, 0) == Some(pair.len() as int)
        &&& body.take(pair.len() as int) == pair
        &&& body.skip(pair.len() as int + 1) == members(o, false, k + 1)
    } else {
        find(body, ","@, 0) is None && body == pair
    }
    &&& find(pair, ":"@, 0) == Some(o[k].key.len() as int)
    &&& strip_right(strip_left(trim(pair.take(o[k].key.len() as int)), '"'), '"') == o[k].key
    &&& trim(pair.skip(o[k].key.len() as int + 1)) == value_text(o[k].value, false)
    &&& flat_value(o[k].value)
}

/// What follows the trigger of a call, without the word that may stand before the name.
pub open spec fn call_head(s: Seq<char>) -> Seq<char> {
    if starts_with(s, "call:"@) {
        s.skip(5)
    } else if starts_with(s, "call"@) {
        s.skip(4)
    } else {
        s
    }
}

/// The call in the body of a call: a name and, from the first brace on, arguments. None if there
/// is no brace, no name, no arguments, or no such tool.
pub open spec fn body_call(body: Seq<char>, allowed: Option<Seq<Seq<char>>>) -> Option<WantedCall> {
    match find(body, "{"@, 0) {
        None => None,
        Some(brace) => {
            let name = trim(body.take(brace));
            let ok = match allowed {
                Some(a) => a.contains(name),
                None => true,
            };
            match dict_value(body.skip(brace)) {
                Some(args) if name.len() > 0 && ok => Some(WantedCall { name, args }),
                _ => None,
            }
        },
    }
}

/// One more call, if there is one.
pub open spec fn add_call(acc: Seq<WantedCall>, c: Option<WantedCall>) -> Seq<WantedCall> {
    match c {
        Some(c) => acc.push(c),
        None => acc,
    }
}

/// The calls in a text, after those of `acc`. A call that is never closed reaches to the end.
pub open spec fn native_calls(
    rest: Seq<char>,
    allowed: Option<Seq<Seq<char>>>,
    acc: Seq<WantedCall>,
) -> Seq<WantedCall>
    decreases rest.len(),
{
    match find(rest, NATIVE_TOOL_CALL_TRIGGER@, 0) {
        Some(start) if 0 <= start && start + NATIVE_TOOL_CALL_TRIGGER@.len() <= rest.len() => {
            let after = call_head(rest.skip(start + NATIVE_TOOL_CALL_TRIGGER@.len()));
            match find(after, NATIVE_TOOL_CALL_SUFFIX@, 0) {
                Some(end) if 0 <= end && NATIVE_TOOL_CALL_TRIGGER@.len() > 0 && start
                    + NATIVE_TOOL_CALL_TRIGGER@.len() + end + NATIVE_TOOL_CALL_SUFFIX@.len()
                    <= rest.len() => native_calls(
                    rest.skip(
                        start + NATIVE_TOOL_CALL_TRIGGER@.len() + end
                            + NATIVE_TOOL_CALL_SUFFIX@.len(),
                    ),
                    allowed,
                    add_call(acc, body_call(after.take(end), allowed)),
                ),
                _ => add_call(acc, body_call(trim(after), allowed)),
            }
        },
        _ => acc,
    }
}

fn name_allowed(name: &str, allowed: Option<&Vec<String>>) -> (r: bool)
    ensures
        r == (match allowed {
            Some(a) => texts(a@).contains(name@),
            None => true,
        }),
{
    match allowed {
        None => true,
        Some(a) => {
            let ghost all = texts(a@);
            let mut i: usize = 0;
            while i < a.len()
                invariant
                    i <= a@.len(),
                    allowed == Some(a),
                    all == texts(a@),
                    forall|k: int| 0 <= k < i ==> all[k] != name@,
                decreases a@.len() - i,
            {
                assert(all[i as int] == a@[i as int]@);
                if is_text(a[i].as_str(), name) {
                    assert(all.contains(all[i as int]));
                    return true;
                }
                i += 1;
            }
            false
        },
    }
}

pub open spec fn opt_names(allowed: Option<&Vec<String>>) -> Option<Seq<Seq<char>>> {
    match allowed {
        Some(a) => Some(texts(a@)),
        None => None,
    }
}

fn read_body_call(body: &Vec<char>, allowed: Option<&Vec<String>>) -> (r: Option<PlannedCall>)
    ensures
        match r {
            Some(c) => body_call(body@, opt_names(allowed)) == Some(c@),
            None => body_call(body@, opt_names(allowed)) is None,
        },
{
    match find_str(body, "{", 0) {
        None => None,
        Some(brace) => {
            let head = cut(body, 0, brace);
            let dict = cut(body, brace, body.len());
            assert(head@ =~= body@.take(brace as int));
            assert(dict@ =~= body@.skip(brace as int));
            let name = text_of(&trimmed(&head));
            if name.as_str().is_empty() {
                return None;
            }
            match gemma4_dict_to_json_object(&dict) {
                None => None,
                Some(args) => if name_allowed(name.as_str(), allowed) {
                    Some(PlannedCall { name, args })
                } else {
                    None
                },
            }
        },
    }
}

fn skip_call_word(v: Vec<char>) -> (r: Vec<char>)
    ensures
        r@ == call_head(v@),
        r@.len() <= v@.len(),
{
    proof {
        reveal_strlit("call:");
        reveal_strlit("call");
    }
    if starts_with_str(&v, "call:") {
        let r = cut(&v, 5, v.len());
        assert(r@ =~= v@.skip(5));
        r
    } else if starts_with_str(&v, "call") {
        let r = cut(&v, 4, v.len());
        assert(r@ =~= v@.skip(4));
        r
    } else {
        v
    }
}

/// The calls in generated text, by name and arguments.
pub fn find_native_calls(text: &str, allowed: Option<&Vec<String>>) -> (r: Vec<PlannedCall>)
    ensures
        planned_view(r@) == native_calls(text@, opt_names(allowed), Seq::empty()),
{
    proof {
        reveal_strlit("<|tool_call>");
        reveal_strlit("<tool_call|>");
    }
    let trigger = chars_of(NATIVE_TOOL_CALL_TRIGGER);
    let suffix = chars_of(NATIVE_TOOL_CALL_SUFFIX);
    let mut calls: Vec<PlannedCall> = Vec::new();
    let mut rest: Vec<char> = chars_of(text);
    let ghost names = opt_names(allowed);
    let ghost goal = native_calls(text@, names, Seq::empty());
    assert(planned_view(calls@) =~= Seq::<WantedCall>::empty());
    loop
        invariant
            trigger@ == NATIVE_TOOL_CALL_TRIGGER@,
            suffix@ == NATIVE_TOOL_CALL_SUFFIX@,
            NATIVE_TOOL_CALL_TRIGGER@.len() == 12,
            NATIVE_TOOL_CALL_SUFFIX@.len() == 12,
            names == opt_names(allowed),
            goal == native_calls(rest@, names, planned_view(calls@)),
            goal == native_calls(text@, names, Seq::empty()),
        decreases rest@.len(),
    {
        match find_str(&rest, NATIVE_TOOL_CALL_TRIGGER, 0) {
            None => {
                return calls;
            },
            Some(start) => {
                let tail = cut(&rest, start + trigger.len(), rest.len());
                assert(tail@ =~= rest@.skip(start + 12));
                let after = skip_call_word(tail);
                match find_str(&after, NATIVE_TOOL_CALL_SUFFIX, 0) {
                    Some(end) => {
                        let body = cut(&after, 0, end);
                        assert(body@ =~= after@.take(end as int));
                        push_call(&mut calls, read_body_call(&body, allowed));
                        let n: usize = rest.len();
                        let next = cut(&rest, start + trigger.len() + end + suffix.len(), n);
                        assert(next@ =~= rest@.skip(start + 24 + end));
                        rest = next;
                    },
                    None => {
                        let body = trimmed(&after);
                        push_call(&mut calls, read_body_call(&body, allowed));
                        return calls;
                    },
                }
            },
        }
    }
}

fn push_call(calls: &mut Vec<PlannedCall>, c: Option<PlannedCall>)
    ensures
        planned_view(final(calls)@) == add_call(
            planned_view(old(calls)@),
            match c {
                Some(p) => Some(p@),
                None => None,
            },
        ),
{
    let ghost before = calls@;
    if let Some(p) = c {
        calls.push(p);
        assert(planned_view(calls@) =~= planned_view(before).push(p@));
    }
}

/// Whether a text is 32 hexadecimal digits in lower case.
pub open spec fn is_simple_uuid(s: Seq<char>) -> bool {
    &&& s.len() == 32
    &&& forall|i: int| 0 <= i < 32 ==> exists|d: nat| d < 16 && #[trigger] s[i] == hex_digit(d)
}

/// `uuid::Uuid::new_v4` in the form of `Uuid::simple`: random, but always 32 hexadecimal digits
/// in lower case.
#[verifier::external_body]
fn random_id() -> (r: String)
    ensures
        is_simple_uuid(r@),
{
    uuid::Uuid::new_v4().simple().to_string()
}

/// A call as it is handed out, under an identifier.
pub open spec fn is_call(t: ToolCall, c: WantedCall) -> bool {
    &&& t.call_type@ == "function"@
    &&& t.function.name@ == c.name
    &&& t.function.arguments@ == json_written(c.args)
}

/// A call under a given identifier.
pub fn call_with_id(id: &str, name: &str, args: &Json) -> (r: ToolCall)
    ensures
        r.id@ == "call_"@ + id@,
        is_call(r, WantedCall { name: name@, args: args@ }),
{
    ToolCall {
        id: String::from_str("call_").concat(id),
        call_type: String::from_str("function"),
        function: FunctionCall { name: String::from_str(name), arguments: write_json(args) },
    }
}

/// Whether an identifier has the form of a random one.
pub open spec fn is_random_id(id: Seq<char>) -> bool {
    id.len() == 37 && id.take(5) == "call_"@ && is_simple_uuid(id.skip(5))
}

/// A call under a random identifier.
pub fn make_tool_call(name: &str, args: &Json) -> (r: ToolCall)
    ensures
        is_random_id(r.id@),
        is_call(r, WantedCall { name: name@, args: args@ }),
{
    proof {
        reveal_strlit("call_");
    }
    let id = random_id();
    let t = call_with_id(id.as_str(), name, args);
    assert(t.id@.take(5) =~= "call_"@);
    assert(t.id@.skip(5) =~= id@);
    t
}

/// A random identifier of a completion.
pub fn completion_id() -> (r: String)
    ensures
        r@.take(9) == "chatcmpl-"@,
        is_simple_uuid(r@.skip(9)),
{
    proof {
        reveal_strlit("chatcmpl-");
    }
    let id = random_id();
    let r = String::from_str("chatcmpl-").concat(id.as_str());
    assert(r@.take(9) =~= "chatcmpl-"@);
    assert(r@.skip(9) =~= id@);
    r
}

/// Whether calls were handed out for `wanted`, in order, each under a random identifier.
pub open spec fn are_calls(v: Seq<ToolCall>, wanted: Seq<WantedCall>) -> bool {
    &&& v.len() == wanted.len()
    &&& forall|i: int| 0 <= i < v.len() ==> is_random_id(
        (#[trigger] v[i]).id@,
    ) && is_call(v[i], wanted[i])
}

fn hand_out(planned: &Vec<PlannedCall>) -> (r: Vec<ToolCall>)
    ensures
        are_calls(r@, planned_view(planned@)),
{
    let ghost all = planned_view(planned@);
    let mut v: Vec<ToolCall> = Vec::new();
    let mut i: usize = 0;
    while i < planned.len()
        invariant
            i <= planned@.len(),
            all == planned_view(planned@),
            v@.len() == i,
            forall|k: int| 0 <= k < i ==> is_random_id(
                (#[trigger] v@[k]).id@,
            ) && is_call(v@[k], all[k]),
        decreases planned@.len() - i,
    {
        let t = make_tool_call(planned[i].name.as_str(), &planned[i].args);
        assert(all[i as int] == planned@[i as int]@);
        v.push(t);
        i += 1;
    }
    v
}

/// The calls in generated text, of the allowed tools.
pub fn parse_native_tool_calls(text: &str, allowed: Option<&Vec<String>>) -> (r: Vec<ToolCall>)
    ensures
        are_calls(r@, native_calls(text@, opt_names(allowed), Seq::empty())),
{
    hand_out(&find_native_calls(text, allowed))
}

/// The calls that need no generation: at most one, and only where a call is forced.
pub open spec fn instant_calls(
    ms: Seq<MessageV>,
    tools: Option<Seq<ToolV>>,
    choice: Option<JsonV>,
) -> Seq<WantedCall> {
    if forces_call(ms, tools, choice) {
        add_call(Seq::empty(), inferred_call(ms, tools))
    } else {
        Seq::empty()
    }
}

pub fn infer_tool_calls_without_generation(
    messages: &Vec<ChatMessage>,
    tools: Option<&Vec<Tool>>,
    tool_choice: Option<&Json>,
) -> (r: Vec<ToolCall>)
    ensures
        are_calls(
            r@,
            instant_calls(messages_view(messages@), opt_tools(tools), opt_json(tool_choice)),
        ),
{
    let mut planned: Vec<PlannedCall> = Vec::new();
    assert(planned_view(planned@) =~= Seq::<WantedCall>::empty());
    if should_force_tool_call(messages, tools, tool_choice) {
        push_call(&mut planned, infer_tool_call_from_context(messages, tools));
    }
    hand_out(&planned)
}

/// The names of tools.
pub open spec fn tool_names(tools: Option<Seq<ToolV>>) -> Option<Seq<Seq<char>>> {
    match tools {
        Some(t) => Some(t.map_values(|x: ToolV| x.name)),
        None => None,
    }
}

fn names_of(tools: &Vec<Tool>) -> (r: Vec<String>)
    ensures
        texts(r@) == tools_view(tools@).map_values(|x: ToolV| x.name),
{
    let ghost all = tools_view(tools@).map_values(|x: ToolV| x.name);
    let mut v: Vec<String> = Vec::new();
    let mut i: usize = 0;
    assert(texts(v@) =~= all.take(0));
    while i < tools.len()
        invariant
            i <= tools@.len(),
            all == tools_view(tools@).map_values(|x: ToolV| x.name),
            texts(v@) == all.take(i as int),
        decreases tools@.len() - i,
    {
        let ghost before = v@;
        let n = tools[i].function.name.clone();
        v.push(n);
        assert(texts(v@) =~= texts(before).push(n@));
        assert(all.take(i + 1) =~= all.take(i as int).push(all[i as int]));
        i += 1;
    }
    assert(all.take(all.len() as int) =~= all);
    v
}

/// The calls of a generation: those in its text, or else those that need no generation.
pub open spec fn resolved_calls(
    text: Seq<char>,
    ms: Seq<MessageV>,
    tools: Option<Seq<ToolV>>,
    choice: Option<JsonV>,
) -> Seq<WantedCall> {
    let native = native_calls(text, tool_names(tools), Seq::empty());
    if native.len() > 0 {
        native
    } else {
        instant_calls(ms, tools, choice)
    }
}

pub fn resolve_tool_calls(
    text: &str,
    messages: &Vec<ChatMessage>,
    tools: Option<&Vec<Tool>>,
    tool_choice: Option<&Json>,
) -> (r: Vec<ToolCall>)
    ensures
        are_calls(
            r@,
            resolved_calls(
                text@,
                messages_view(messages@),
                opt_tools(tools),
                opt_json(tool_choice),
            ),
        ),
{
    let parsed = match tools {
        Some(t) => {
            let names = names_of(t);
            parse_native_tool_calls(text, Some(&names))
        },
        None => parse_native_tool_calls(text, None),
    };
    if !parsed.is_empty() {
        return parsed;
    }
    infer_tool_calls_without_generation(messages, tools, tool_choice)
}

/// A tool that was not offered is never called: every call that is read from generated text names
/// one of the allowed tools.
pub proof fn lemma_only_allowed(
    rest: Seq<char>,
    allowed: Seq<Seq<char>>,
    acc: Seq<WantedCall>,
)
    requires
        forall|i: int| 0 <= i < acc.len() ==> allowed.contains((#[trigger] acc[i]).name),
    ensures
        forall|i: int|
            0 <= i < native_calls(rest, Some(allowed), acc).len() ==> allowed.contains(
                (#[trigger] native_calls(rest, Some(allowed), acc)[i]).name,
            ),
    decreases rest.len(),
{
    match find(rest, NATIVE_TOOL_CALL_TRIGGER@, 0) {
        Some(start) if 0 <= start && start + NATIVE_TOOL_CALL_TRIGGER@.len() <= rest.len() => {
            let after = call_head(rest.skip(start + NATIVE_TOOL_CALL_TRIGGER@.len()));
            match find(after, NATIVE_TOOL_CALL_SUFFIX@, 0) {
                Some(end) if 0 <= end && NATIVE_TOOL_CALL_TRIGGER@.len() > 0 && start
                    + NATIVE_TOOL_CALL_TRIGGER@.len() + end + NATIVE_TOOL_CALL_SUFFIX@.len()
                    <= rest.len() => {
                    lemma_only_allowed(
                        rest.skip(
                            start + NATIVE_TOOL_CALL_TRIGGER@.len() + end
                                + NATIVE_TOOL_CALL_SUFFIX@.len(),
                        ),
                        allowed,
                        add_call(acc, body_call(after.take(end), Some(allowed))),
                    );
                },
                _ => {},
            }
        },
        _ => {},
    }
}

/// Calls that were not generated are inferred from the last user message only where tools are
/// offered: there is at most one, and it names an offered tool.
pub proof fn lemma_instant_calls_offered(
    ms: Seq<MessageV>,
    tools: Option<Seq<ToolV>>,
    choice: Option<JsonV>,
)
    ensures
        instant_calls(ms, tools, choice).len() <= 1,
        forall|i: int|
            0 <= i < instant_calls(ms, tools, choice).len() ==> tools is Some && offers(
                tools->0,
                (#[trigger] instant_calls(ms, tools, choice)[i]).name,
            ),
{
}

} // verus!
