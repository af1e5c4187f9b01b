//! Chat messages, tools and the prompt that a conversation becomes.

use vstd::prelude::*;
use vstd::string::*;

use crate::server::channel::{
    NATIVE_TOOL_CALL_PREFIX, NATIVE_TOOL_CALL_SUFFIX, NATIVE_TOOL_CALL_TRIGGER,
};
use crate::server::json::{
    field_of, field_view, fields_view, items_view, json_read, json_view, parse_json, Field, FieldV,
    Json, JsonV,
};
use crate::text::{chars_of, is_str, join, join_strings, texts, trim, trim_str};

verus! {

pub const TURN_START: &'static str = "<|turn>";

pub const TURN_END: &'static str = "<turn|>";

pub const GEMMA4_TOOL_START: &'static str = "<|tool>";

pub const GEMMA4_TOOL_END: &'static str = "<tool|>";

pub const NATIVE_TOOL_RESPONSE_PREFIX: &'static str = "<|tool_response>response:";

pub const NATIVE_TOOL_RESPONSE_SUFFIX: &'static str = "<tool_response|>";

/// A tool that the model may call.
#[derive(Debug)]
pub struct Tool {
    pub tool_type: Option<String>,
    pub function: FunctionDef,
}

#[derive(Debug)]
pub struct FunctionDef {
    pub name: String,
    pub description: Option<String>,
    pub parameters: Option<Json>,
}

/// A call of a tool by the model.
#[derive(Clone, Debug)]
pub struct ToolCall {
    pub id: String,
    pub call_type: String,
    pub function: FunctionCall,
}

/// The called function; its arguments are JSON text.
#[derive(Clone, Debug)]
pub struct FunctionCall {
    pub name: String,
    pub arguments: String,
}

/// A message of a conversation.
#[derive(Clone, Debug)]
pub struct ChatMessage {
    pub role: String,
    pub content: Option<String>,
    pub tool_calls: Option<Vec<ToolCall>>,
    pub name: Option<String>,
    pub tool_call_id: Option<String>,
}

impl Default for ChatMessage {
    /// A message without role and content.
    fn default() -> (r: ChatMessage)
        ensures
            r.role@ == Seq::<char>::empty(),
            r.content is None,
            r.tool_calls is None,
            r.name is None,
            r.tool_call_id is None,
    {
        ChatMessage {
            role: String::new(),
            content: None,
            tool_calls: None,
            name: None,
            tool_call_id: None,
        }
    }
}

/// A tool as the template reads it.
pub ghost struct ToolV {
    pub name: Seq<char>,
    pub description: Option<Seq<char>>,
    pub parameters: Option<JsonV>,
}

/// A tool call as the template reads it.
pub ghost struct CallV {
    pub name: Seq<char>,
    pub arguments: Seq<char>,
}

/// A message as the template reads it.
pub ghost struct MessageV {
    pub role: Seq<char>,
    pub content: Option<Seq<char>>,
    pub calls: Option<Seq<CallV>>,
    pub name: Option<Seq<char>>,
}

/// A text that may be missing.
pub open spec fn opt_text(s: Option<String>) -> Option<Seq<char>> {
    match s {
        Some(t) => Some(t@),
        None => None,
    }
}

impl View for Tool {
    type V = ToolV;

    open spec fn view(&self) -> ToolV {
        ToolV {
            name: self.function.name@,
            description: opt_text(self.function.description),
            parameters: match self.function.parameters {
                Some(j) => Some(j@),
                None => None,
            },
        }
    }
}

impl View for ToolCall {
    type V = CallV;

    open spec fn view(&self) -> CallV {
        CallV { name: self.function.name@, arguments: self.function.arguments@ }
    }
}

impl View for ChatMessage {
    type V = MessageV;

    open spec fn view(&self) -> MessageV {
        MessageV {
            role: self.role@,
            content: opt_text(self.content),
            calls: match self.tool_calls {
                Some(v) => Some(calls_view(v@)),
                None => None,
            },
            name: opt_text(self.name),
        }
    }
}

pub open spec fn calls_view(v: Seq<ToolCall>) -> Seq<CallV> {
    v.map_values(|c: ToolCall| c@)
}

pub open spec fn messages_view(v: Seq<ChatMessage>) -> Seq<MessageV> {
    v.map_values(|m: ChatMessage| m@)
}

pub open spec fn tools_view(v: Seq<Tool>) -> Seq<ToolV> {
    v.map_values(|t: Tool| t@)
}

pub open spec fn opt_tools(tools: Option<&Vec<Tool>>) -> Option<Seq<ToolV>> {
    match tools {
        Some(v) => Some(tools_view(v@)),
        None => None,
    }
}

pub open spec fn opt_json(j: Option<&Json>) -> Option<JsonV> {
    match j {
        Some(v) => Some(v@),
        None => None,
    }
}

/// Whether a string is a given text.
pub fn is_text(s: &str, t: &str) -> (r: bool)
    ensures
        r == (s@ == t@),
{
    is_str(&chars_of(s), t)
}

/// A quoted string of the template.
pub open spec fn quoted(s: Seq<char>) -> Seq<char> {
    "<|\"|>"@ + s + "<|\"|>"@
}

pub fn gemma4_string(value: &str) -> (r: String)
    ensures
        r@ == quoted(value@),
{
    String::from_str("<|\"|>").concat(value).concat("<|\"|>")
}

/// A JSON value as the template writes it: strings quoted, keys bare.
pub open spec fn gemma_of(j: JsonV) -> Seq<char>
    decreases j,
{
    match j {
        JsonV::Str(s) => quoted(s),
        JsonV::Number(t) => t,
        JsonV::Double(t) => t,
        JsonV::Bool(b) => if b {
            "true"@
        } else {
            "false"@
        },
        JsonV::Null => "null"@,
        JsonV::Array(items) => "["@ + join(gemma_items(items), ","@) + "]"@,
        JsonV::Object(fields) => "{"@ + join(gemma_fields(fields), ","@) + "}"@,
    }
}

pub open spec fn gemma_items(items: Seq<JsonV>) -> Seq<Seq<char>>
    decreases items,
{
    Seq::new(
        items.len(),
        |i: int| if 0 <= i < items.len() { gemma_of(items[i]) } else { arbitrary() },
    )
}

pub open spec fn gemma_fields(fields: Seq<FieldV>) -> Seq<Seq<char>>
    decreases fields,
{
    Seq::new(
        fields.len(),
        |i: int|
            if 0 <= i < fields.len() {
                fields[i].key + ":"@ + gemma_of(fields[i].value)
            } else {
                arbitrary()
            },
    )
}

pub fn json_value_to_gemma4(value: &Json) -> (r: String)
    ensures
        r@ == gemma_of(value@),
    decreases *value,
{
    match value {
        Json::Str(s) => gemma4_string(s.as_str()),
        Json::Number(n) => n.clone(),
        Json::Double(n) => n.clone(),
        Json::Bool(b) => if *b {
            String::from_str("true")
        } else {
            String::from_str("false")
        },
        Json::Null => String::from_str("null"),
        Json::Array(items) => {
            let ghost all = gemma_items(items_view(items@));
            let mut parts: Vec<String> = Vec::new();
            let mut i: usize = 0;
            assert(texts(parts@) =~= all.take(0));
            while i < items.len()
                invariant
                    i <= items@.len(),
                    all == gemma_items(items_view(items@)),
                    all.len() == items@.len(),
                    texts(parts@) == all.take(i as int),
                    decreases_to!(*value => items@),
                decreases items@.len() - i,
            {
                let ghost before = parts@;
                let p = json_value_to_gemma4(&items[i]);
                parts.push(p);
                assert(texts(parts@) =~= texts(before).push(p@));
                assert(all.take(i + 1) =~= all.take(i as int).push(all[i as int]));
                i += 1;
            }
            assert(all.take(all.len() as int) =~= all);
            String::from_str("[").concat(join_strings(&parts, ",").as_str()).concat("]")
        },
        Json::Object(fields) => {
            let ghost all = gemma_fields(fields_view(fields@));
            let mut parts: Vec<String> = Vec::new();
            let mut i: usize = 0;
            assert(texts(parts@) =~= all.take(0));
            while i < fields.len()
                invariant
                    i <= fields@.len(),
                    all == gemma_fields(fields_view(fields@)),
                    all.len() == fields@.len(),
                    texts(parts@) == all.take(i as int),
                    decreases_to!(*value => fields@),
                decreases fields@.len() - i,
            {
                let ghost before = parts@;
                let p = fields[i].key.clone().concat(":").concat(
                    json_value_to_gemma4(&fields[i].value).as_str(),
                );
                parts.push(p);
                assert(texts(parts@) =~= texts(before).push(p@));
                assert(all.take(i + 1) =~= all.take(i as int).push(all[i as int]));
                i += 1;
            }
            assert(all.take(all.len() as int) =~= all);
            String::from_str("{").concat(join_strings(&parts, ",").as_str()).concat("}")
        },
    }
}

/// The upper case of a text, as `str::to_uppercase` gives it.
pub uninterp spec fn uppercase(s: Seq<char>) -> Seq<char>;

/// `str::to_uppercase`: the upper case of a text is a function of the text.
#[verifier::external_body]
fn to_upper(s: &str) -> (r: String)
    ensures
        r@ == uppercase(s@),
{
    s.to_uppercase()
}

/// The string behind a key of an object, if there is one.
pub open spec fn string_field(fields: Seq<FieldV>, key: Seq<char>) -> Option<Seq<char>> {
    match field_of(fields, key) {
        Some(JsonV::Str(s)) => Some(s),
        _ => None,
    }
}

/// The members of an object; none of anything else.
pub open spec fn members_of(j: JsonV) -> Seq<FieldV> {
    match j {
        JsonV::Object(fields) => fields,
        _ => Seq::empty(),
    }
}

/// What the template says of one property of a schema: its description and its type.
pub open spec fn property_text(f: FieldV) -> Seq<char> {
    let m = members_of(f.value);
    let d = match string_field(m, "description"@) {
        Some(s) => seq!["description:"@ + quoted(s)],
        None => Seq::empty(),
    };
    let t = match string_field(m, "type"@) {
        Some(s) => d.push("type:"@ + quoted(uppercase(s))),
        None => d,
    };
    f.key + ":{"@ + join(t, ","@) + "}"@
}

pub open spec fn property_texts(fields: Seq<FieldV>) -> Seq<Seq<char>> {
    fields.map_values(|f: FieldV| property_text(f))
}

/// The strings of an array, quoted; other items are left out.
pub open spec fn required_texts(items: Seq<JsonV>) -> Seq<Seq<char>>
    decreases items.len(),
{
    if items.len() == 0 {
        Seq::empty()
    } else {
        let before = required_texts(items.drop_last());
        match items.last() {
            JsonV::Str(s) => before.push(quoted(s)),
            _ => before,
        }
    }
}

/// A parameter schema as the template writes it.
pub open spec fn schema_text(j: JsonV) -> Seq<char> {
    match j {
        JsonV::Object(fields) => {
            let m0: Seq<Seq<char>> = Seq::empty();
            let m1 = match field_of(fields, "properties"@) {
                Some(JsonV::Object(props)) => m0.push(
                    "properties:{"@ + join(property_texts(props), ","@) + "}"@,
                ),
                _ => m0,
            };
            let m2 = match field_of(fields, "required"@) {
                Some(JsonV::Array(items)) => m1.push(
                    "required:["@ + join(required_texts(items), ","@) + "]"@,
                ),
                _ => m1,
            };
            let m3 = match string_field(fields, "type"@) {
                Some(t) => m2.push("type:"@ + quoted(uppercase(t))),
                None => m2,
            };
            if m3.len() == 0 {
                "{}"@
            } else {
                "{"@ + join(m3, ","@) + "}"@
            }
        },
        _ => gemma_of(j),
    }
}

/// The value behind a key of an object, if there is one.
fn find_field<'a>(fields: &'a Vec<Field>, key: &str) -> (r: Option<&'a Json>)
    ensures
        match r {
            Some(j) => field_of(fields_view(fields@), key@) == Some(j@),
            None => field_of(fields_view(fields@), key@) is None,
        },
{
    let ghost all = fields_view(fields@);
    let mut i: usize = 0;
    assert(all.skip(0) =~= all);
    while i < fields.len()
        invariant
            i <= fields@.len(),
            all == fields_view(fields@),
            field_of(all, key@) == field_of(all.skip(i as int), key@),
        decreases fields@.len() - i,
    {
        assert(all.skip(i as int)[0] == field_view(fields@[i as int]));
        if is_text(fields[i].key.as_str(), key) {
            return Some(&fields[i].value);
        }
        assert(all.skip(i as int).skip(1) =~= all.skip(i + 1));
        i += 1;
    }
    None
}

fn find_string<'a>(fields: &'a Vec<Field>, key: &str) -> (r: Option<&'a String>)
    ensures
        match r {
            Some(s) => string_field(fields_view(fields@), key@) == Some(s@),
            None => string_field(fields_view(fields@), key@) is None,
        },
{
    match find_field(fields, key) {
        Some(Json::Str(s)) => Some(s),
        _ => None,
    }
}

/// One more text.
fn add_text(parts: &mut Vec<String>, s: String)
    ensures
        texts(final(parts)@) == texts(old(parts)@).push(s@),
{
    let ghost before = parts@;
    parts.push(s);
    assert(texts(parts@) =~= texts(before).push(s@));
}

fn no_texts() -> (r: Vec<String>)
    ensures
        texts(r@) == Seq::<Seq<char>>::empty(),
{
    let v: Vec<String> = Vec::new();
    assert(texts(v@) =~= Seq::<Seq<char>>::empty());
    v
}

fn render_property(f: &Field) -> (r: String)
    ensures
        r@ == property_text(field_view(*f)),
{
    let mut parts: Vec<String> = no_texts();
    if let Json::Object(m) = &f.value {
        if let Some(d) = find_string(m, "description") {
            add_text(
                &mut parts,
                String::from_str("description:").concat(gemma4_string(d.as_str()).as_str()),
            );
            assert(texts(parts@) =~= seq![
                "description:"@ + quoted(
                    string_field(members_of(field_view(*f).value), "description"@)->0,
                ),
            ]);
        }
        if let Some(t) = find_string(m, "type") {
            add_text(
                &mut parts,
                String::from_str("type:").concat(
                    gemma4_string(to_upper(t.as_str()).as_str()).as_str(),
                ),
            );
        }
    }
    f.key.clone().concat(":{").concat(join_strings(&parts, ",").as_str()).concat("}")
}

fn render_properties(props: &Vec<Field>) -> (r: String)
    ensures
        r@ == join(property_texts(fields_view(props@)), ","@),
{
    let ghost all = property_texts(fields_view(props@));
    let mut parts: Vec<String> = no_texts();
    let mut i: usize = 0;
    assert(all.take(0) =~= Seq::<Seq<char>>::empty());
    while i < props.len()
        invariant
            i <= props@.len(),
            all == property_texts(fields_view(props@)),
            texts(parts@) == all.take(i as int),
        decreases props@.len() - i,
    {
        add_text(&mut parts, render_property(&props[i]));
        assert(all.take(i + 1) =~= all.take(i as int).push(all[i as int]));
        i += 1;
    }
    assert(all.take(all.len() as int) =~= all);
    join_strings(&parts, ",")
}

fn render_required(items: &Vec<Json>) -> (r: String)
    ensures
        r@ == join(required_texts(items_view(items@)), ","@),
{
    let ghost all = items_view(items@);
    let mut parts: Vec<String> = no_texts();
    let mut i: usize = 0;
    while i < items.len()
        invariant
            i <= items@.len(),
            all == items_view(items@),
            texts(parts@) == required_texts(all.take(i as int)),
        decreases items@.len() - i,
    {
        assert(all.take(i + 1).drop_last() =~= all.take(i as int));
        assert(all.take(i + 1).last() == json_view(items@[i as int]));
        if let Json::Str(s) = &items[i] {
            add_text(&mut parts, gemma4_string(s.as_str()));
        }
        i += 1;
    }
    assert(all.take(all.len() as int) =~= all);
    join_strings(&parts, ",")
}

pub fn json_schema_to_gemma4_params(schema: &Json) -> (r: String)
    ensures
        r@ == schema_text(schema@),
{
    let fields = match schema {
        Json::Object(fields) => fields,
        _ => {
            return json_value_to_gemma4(schema);
        },
    };
    let mut members: Vec<String> = no_texts();
    if let Some(Json::Object(props)) = find_field(fields, "properties") {
        add_text(
            &mut members,
            String::from_str("properties:{").concat(render_properties(props).as_str()).concat("}"),
        );
    }
    if let Some(Json::Array(items)) = find_field(fields, "required") {
        add_text(
            &mut members,
            String::from_str("required:[").concat(render_required(items).as_str()).concat("]"),
        );
    }
    if let Some(t) = find_string(fields, "type") {
        add_text(
            &mut members,
            String::from_str("type:").concat(gemma4_string(to_upper(t.as_str()).as_str()).as_str()),
        );
    }
    if members.is_empty() {
        String::from_str("{}")
    } else {
        String::from_str("{").concat(join_strings(&members, ",").as_str()).concat("}")
    }
}

/// The declaration of one tool.
pub open spec fn declaration(t: ToolV) -> Seq<char> {
    let description = match t.description {
        Some(d) => d,
        None => ""@,
    };
    let parameters = match t.parameters {
        Some(p) => schema_text(p),
        None => "{}"@,
    };
    GEMMA4_TOOL_START@ + "declaration:"@ + t.name + "{description:"@ + quoted(description)
        + ",parameters:"@ + parameters + "}"@ + GEMMA4_TOOL_END@
}

/// The declarations of tools, one after the other.
pub open spec fn declarations(tools: Seq<ToolV>) -> Seq<char>
    decreases tools.len(),
{
    if tools.len() == 0 {
        Seq::empty()
    } else {
        declarations(tools.drop_last()) + declaration(tools.last())
    }
}

fn render_declaration(t: &Tool) -> (r: String)
    ensures
        r@ == declaration(t@),
{
    let f = &t.function;
    let description = match &f.description {
        Some(d) => gemma4_string(d.as_str()),
        None => gemma4_string(""),
    };
    let parameters = match &f.parameters {
        Some(p) => json_schema_to_gemma4_params(p),
        None => String::from_str("{}"),
    };
    String::from_str(GEMMA4_TOOL_START).concat("declaration:").concat(f.name.as_str()).concat(
        "{description:",
    ).concat(description.as_str()).concat(",parameters:").concat(parameters.as_str()).concat(
        "}",
    ).concat(GEMMA4_TOOL_END)
}

pub fn render_tool_declarations(tools: &Vec<Tool>) -> (r: String)
    ensures
        r@ == declarations(tools_view(tools@)),
{
    let ghost all = tools_view(tools@);
    let mut s: String = String::new();
    let mut i: usize = 0;
    while i < tools.len()
        invariant
            i <= tools@.len(),
            all == tools_view(tools@),
            s@ == declarations(all.take(i as int)),
        decreases tools@.len() - i,
    {
        assert(all.take(i + 1).drop_last() =~= all.take(i as int));
        s = s.concat(render_declaration(&tools[i]).as_str());
        i += 1;
    }
    assert(all.take(all.len() as int) =~= all);
    s
}

/// A call of the model as it stands in the conversation; malformed arguments count as none.
pub open spec fn call_text(c: CallV) -> Seq<char> {
    let args = match json_read(c.arguments) {
        Some(j) => gemma_of(j),
        None => gemma_of(JsonV::Object(Seq::empty())),
    };
    NATIVE_TOOL_CALL_PREFIX@ + c.name + args + NATIVE_TOOL_CALL_SUFFIX@
}

pub fn render_assistant_tool_call(tc: &ToolCall) -> (r: String)
    ensures
        r@ == call_text(tc@),
{
    let args = match parse_json(tc.function.arguments.as_str()) {
        Some(j) => j,
        None => {
            let none: Vec<Field> = Vec::new();
            assert(fields_view(none@) =~= Seq::<FieldV>::empty());
            Json::Object(none)
        },
    };
    String::from_str(NATIVE_TOOL_CALL_PREFIX).concat(tc.function.name.as_str()).concat(
        json_value_to_gemma4(&args).as_str(),
    ).concat(NATIVE_TOOL_CALL_SUFFIX)
}

/// A tool's answer as it stands in the conversation.
pub open spec fn response_text(name: Seq<char>, content: Seq<char>) -> Seq<char> {
    NATIVE_TOOL_RESPONSE_PREFIX@ + name + "{value:"@ + quoted(content) + "}"@
        + NATIVE_TOOL_RESPONSE_SUFFIX@
}

pub fn render_tool_response(name: &str, content: &str) -> (r: String)
    ensures
        r@ == response_text(name@, content@),
{
    String::from_str(NATIVE_TOOL_RESPONSE_PREFIX).concat(name).concat("{value:").concat(
        gemma4_string(content).as_str(),
    ).concat("}").concat(NATIVE_TOOL_RESPONSE_SUFFIX)
}

/// Whether a tool choice is this word.
pub open spec fn choice_is(choice: Option<JsonV>, word: Seq<char>) -> bool {
    choice == Some(JsonV::Str(word))
}

pub fn tool_choice_is_required(tool_choice: Option<&Json>) -> (r: bool)
    ensures
        r == choice_is(opt_json(tool_choice), "required"@),
{
    match tool_choice {
        Some(Json::Str(v)) => is_text(v.as_str(), "required"),
        _ => false,
    }
}

pub fn tool_choice_is_none(tool_choice: Option<&Json>) -> (r: bool)
    ensures
        r == choice_is(opt_json(tool_choice), "none"@),
{
    match tool_choice {
        Some(Json::Str(v)) => is_text(v.as_str(), "none"),
        _ => false,
    }
}

/// Whether a message holds calls.
pub open spec fn has_calls(m: MessageV) -> bool {
    m.calls is Some && m.calls->0.len() > 0
}

/// Whether the conversation waits for a tool call: going back from its end, the last user
/// message that is not blank, or the last message with calls, comes before any tool's answer.
pub open spec fn awaits(ms: Seq<MessageV>, seen_tool: bool) -> bool
    decreases ms.len(),
{
    if ms.len() == 0 {
        false
    } else {
        let m = ms.last();
        if m.role == "tool"@ {
            awaits(ms.drop_last(), true)
        } else if m.role == "user"@ {
            if m.content is Some && trim(m.content->0).len() == 0 {
                awaits(ms.drop_last(), seen_tool)
            } else {
                !seen_tool
            }
        } else if m.role == "assistant"@ && has_calls(m) {
            !seen_tool
        } else {
            awaits(ms.drop_last(), seen_tool)
        }
    }
}

fn message_has_calls(m: &ChatMessage) -> (r: bool)
    ensures
        r == has_calls(m@),
{
    match &m.tool_calls {
        Some(v) => v.len() > 0,
        None => false,
    }
}

pub fn awaits_tool_call(messages: &Vec<ChatMessage>) -> (r: bool)
    ensures
        r == awaits(messages_view(messages@), false),
{
    proof {
        reveal_strlit("tool");
        reveal_strlit("user");
        reveal_strlit("assistant");
    }
    let ghost all = messages_view(messages@);
    let mut seen_tool: bool = false;
    let mut i: usize = messages.len();
    assert(all.take(all.len() as int) =~= all);
    while i > 0
        invariant
            i <= messages@.len(),
            all == messages_view(messages@),
            awaits(all, false) == awaits(all.take(i as int), seen_tool),
        decreases i,
    {
        assert(all.take(i as int).drop_last() =~= all.take(i - 1));
        assert(all.take(i as int).last() == messages@[i - 1]@);
        let msg = &messages[i - 1];
        if is_text(msg.role.as_str(), "tool") {
            seen_tool = true;
        } else if is_text(msg.role.as_str(), "user") {
            let blank: bool = match &msg.content {
                Some(c) => trim_str(c.as_str()).as_str().is_empty(),
                None => false,
            };
            if !blank {
                return !seen_tool;
            }
        } else if is_text(msg.role.as_str(), "assistant") && message_has_calls(msg) {
            return !seen_tool;
        }
        i -= 1;
    }
    false
}

/// Whether the answer has to be a tool call: asked for, or there are tools and the user spoke
/// last.
pub open spec fn requires_call(
    ms: Seq<MessageV>,
    tools: Option<Seq<ToolV>>,
    choice: Option<JsonV>,
) -> bool {
    if choice_is(choice, "none"@) {
        false
    } else if choice_is(choice, "required"@) {
        true
    } else {
        some_tools(tools) && ms.len() > 0 && ms.last().role == "user"@
    }
}

pub open spec fn some_tools(tools: Option<Seq<ToolV>>) -> bool {
    tools is Some && tools->0.len() > 0
}

fn has_some_tools(tools: Option<&Vec<Tool>>) -> (r: bool)
    ensures
        r == some_tools(opt_tools(tools)),
{
    match tools {
        Some(t) => t.len() > 0,
        None => false,
    }
}

pub fn should_require_tool_call(
    messages: &Vec<ChatMessage>,
    tools: Option<&Vec<Tool>>,
    tool_choice: Option<&Json>,
) -> (r: bool)
    ensures
        r == requires_call(messages_view(messages@), opt_tools(tools), opt_json(tool_choice)),
{
    if tool_choice_is_none(tool_choice) {
        return false;
    }
    if tool_choice_is_required(tool_choice) {
        return true;
    }
    if !has_some_tools(tools) {
        return false;
    }
    messages.len() > 0 && is_text(messages[messages.len() - 1].role.as_str(), "user")
}

/// Whether the answer has to be a tool call and the conversation waits for one.
pub open spec fn forces_call(
    ms: Seq<MessageV>,
    tools: Option<Seq<ToolV>>,
    choice: Option<JsonV>,
) -> bool {
    requires_call(ms, tools, choice) && awaits(ms, false)
}

pub fn should_force_tool_call(
    messages: &Vec<ChatMessage>,
    tools: Option<&Vec<Tool>>,
    tool_choice: Option<&Json>,
) -> (r: bool)
    ensures
        r == forces_call(messages_view(messages@), opt_tools(tools), opt_json(tool_choice)),
{
    should_require_tool_call(messages, tools, tool_choice) && awaits_tool_call(messages)
}

/// What the model's turn begins with: the start of a tool call where the client asked for one.
pub open spec fn priming(
    ms: Seq<MessageV>,
    tools: Option<Seq<ToolV>>,
    choice: Option<JsonV>,
) -> Seq<char> {
    if choice_is(choice, "required"@) && forces_call(ms, tools, choice) {
        NATIVE_TOOL_CALL_TRIGGER@
    } else {
        ""@
    }
}

pub fn generation_priming_suffix(
    messages: &Vec<ChatMessage>,
    tools: Option<&Vec<Tool>>,
    tool_choice: Option<&Json>,
) -> (r: &'static str)
    ensures
        r@ == priming(messages_view(messages@), opt_tools(tools), opt_json(tool_choice)),
{
    if tool_choice_is_required(tool_choice)
        && should_force_tool_call(messages, tools, tool_choice) {
        NATIVE_TOOL_CALL_TRIGGER
    } else {
        ""
    }
}

/// The contents of the system messages that are not empty.
pub open spec fn system_texts(ms: Seq<MessageV>) -> Seq<Seq<char>>
    decreases ms.len(),
{
    if ms.len() == 0 {
        Seq::empty()
    } else {
        let before = system_texts(ms.drop_last());
        let m = ms.last();
        if m.role == "system"@ && m.content is Some && m.content->0.len() > 0 {
            before.push(m.content->0)
        } else {
            before
        }
    }
}

fn collect_system(messages: &Vec<ChatMessage>) -> (r: Vec<String>)
    ensures
        texts(r@) == system_texts(messages_view(messages@)),
{
    let ghost all = messages_view(messages@);
    let mut parts: Vec<String> = no_texts();
    let mut i: usize = 0;
    while i < messages.len()
        invariant
            i <= messages@.len(),
            all == messages_view(messages@),
            texts(parts@) == system_texts(all.take(i as int)),
        decreases messages@.len() - i,
    {
        assert(all.take(i + 1).drop_last() =~= all.take(i as int));
        assert(all.take(i + 1).last() == messages@[i as int]@);
        if is_text(messages[i].role.as_str(), "system") {
            if let Some(c) = &messages[i].content {
                if !c.as_str().is_empty() {
                    add_text(&mut parts, c.clone());
                }
            }
        }
        i += 1;
    }
    assert(all.take(all.len() as int) =~= all);
    parts
}

/// The system turn: system messages, tool declarations while a call is awaited, and a demand
/// for a call where one is forced. Nothing if there is nothing to say.
pub open spec fn system_turn(
    ms: Seq<MessageV>,
    tools: Option<Seq<ToolV>>,
    choice: Option<JsonV>,
) -> Seq<char> {
    let parts = system_texts(ms);
    let declare = some_tools(tools) && awaits(ms, false);
    if !declare && parts.len() == 0 {
        Seq::empty()
    } else {
        let head = TURN_START@ + "system\n"@ + "<|think|>\n"@;
        let said = if parts.len() > 0 {
            let j = head + join(parts, "\n\n"@);
            if declare {
                j + "\n"@
            } else {
                j
            }
        } else {
            head
        };
        let declared = if declare {
            said + declarations(tools->0)
        } else {
            said
        };
        let forced = if forces_call(ms, tools, choice) {
            declared + "\nYou must call a tool to answer this request."@
        } else {
            declared
        };
        forced + TURN_END@ + "\n"@
    }
}

fn render_system_turn(
    messages: &Vec<ChatMessage>,
    tools: Option<&Vec<Tool>>,
    tool_choice: Option<&Json>,
) -> (r: String)
    ensures
        r@ == system_turn(messages_view(messages@), opt_tools(tools), opt_json(tool_choice)),
{
    let parts = collect_system(messages);
    assert(parts@.len() == texts(parts@).len());
    let declare: bool = has_some_tools(tools) && awaits_tool_call(messages);
    if !declare && parts.is_empty() {
        return String::new();
    }
    let mut p: String = String::from_str(TURN_START).concat("system\n").concat("<|think|>\n");
    if !parts.is_empty() {
        p = p.concat(join_strings(&parts, "\n\n").as_str());
        if declare {
            p = p.concat("\n");
        }
    }
    if let Some(tools) = tools {
        if declare {
            p = p.concat(render_tool_declarations(tools).as_str());
        }
    }
    if should_force_tool_call(messages, tools, tool_choice) {
        p = p.concat("\nYou must call a tool to answer this request.");
    }
    p.concat(TURN_END).concat("\n")
}

/// A tool message in the conversation; an unnamed tool is called `tool`.
pub open spec fn tool_message(m: MessageV) -> Seq<char> {
    response_text(
        match m.name {
            Some(n) => n,
            None => "tool"@,
        },
        match m.content {
            Some(c) => c,
            None => ""@,
        },
    )
}

fn render_tool_message(m: &ChatMessage) -> (r: String)
    ensures
        r@ == tool_message(m@),
{
    let name = match &m.name {
        Some(n) => n.as_str(),
        None => "tool",
    };
    let content = match &m.content {
        Some(c) => c.as_str(),
        None => "",
    };
    render_tool_response(name, content)
}

/// The calls of a message, after `p`.
pub open spec fn calls_after(p: Seq<char>, calls: Seq<CallV>) -> Seq<char>
    decreases calls.len(),
{
    if calls.len() == 0 {
        p
    } else {
        calls_after(p, calls.drop_last()) + call_text(calls.last())
    }
}

/// A turn without its end: the role, the content and the calls.
pub open spec fn turn_open(p: Seq<char>, m: MessageV) -> Seq<char> {
    let head = p + TURN_START@ + (if m.role == "assistant"@ {
        "model"@
    } else {
        "user"@
    }) + "\n"@;
    let said = match m.content {
        Some(c) => head + c,
        None => head,
    };
    match m.calls {
        Some(calls) => calls_after(said, calls),
        None => said,
    }
}

fn render_turn_open(p: String, m: &ChatMessage) -> (r: String)
    ensures
        r@ == turn_open(p@, m@),
{
    let mapped = if is_text(m.role.as_str(), "assistant") {
        "model"
    } else {
        "user"
    };
    let mut p: String = p.concat(TURN_START).concat(mapped).concat("\n");
    if let Some(c) = &m.content {
        p = p.concat(c.as_str());
    }
    if let Some(calls) = &m.tool_calls {
        let ghost said = p@;
        let ghost all = calls_view(calls@);
        let mut i: usize = 0;
        while i < calls.len()
            invariant
                i <= calls@.len(),
                all == calls_view(calls@),
                p@ == calls_after(said, all.take(i as int)),
            decreases calls@.len() - i,
        {
            assert(all.take(i + 1).drop_last() =~= all.take(i as int));
            p = p.concat(render_assistant_tool_call(&calls[i]).as_str());
            i += 1;
        }
        assert(all.take(all.len() as int) =~= all);
    }
    p
}

/// The tool messages from `i` on, after `p`, and the index behind them.
pub open spec fn responses(p: Seq<char>, ms: Seq<MessageV>, i: int) -> (Seq<char>, int)
    decreases ms.len() - i,
{
    if 0 <= i < ms.len() && ms[i].role == "tool"@ {
        responses(p + tool_message(ms[i]), ms, i + 1)
    } else {
        (p, i)
    }
}

/// The model messages without calls from `i` on, which go on with the open turn.
pub open spec fn continuations(p: Seq<char>, ms: Seq<MessageV>, i: int) -> (Seq<char>, int)
    decreases ms.len() - i,
{
    if 0 <= i < ms.len() && ms[i].role == "assistant"@ && !has_calls(ms[i]) {
        continuations(
            match ms[i].content {
                Some(c) => p + c,
                None => p,
            },
            ms,
            i + 1,
        )
    } else {
        (p, i)
    }
}

/// Going on only moves forward.
pub proof fn lemma_forward(p: Seq<char>, ms: Seq<MessageV>, i: int)
    requires
        0 <= i <= ms.len(),
    ensures
        i <= responses(p, ms, i).1 <= ms.len(),
        i <= continuations(p, ms, i).1 <= ms.len(),
    decreases ms.len() - i,
{
    if i < ms.len() {
        if ms[i].role == "tool"@ {
            lemma_forward(p + tool_message(ms[i]), ms, i + 1);
        }
        if ms[i].role == "assistant"@ && !has_calls(ms[i]) {
            lemma_forward(
                match ms[i].content {
                    Some(c) => p + c,
                    None => p,
                },
                ms,
                i + 1,
            );
        }
    }
}

/// The turns from `i` on, after `p`, and whether the last one is left open. A model turn with
/// calls takes in the answers of the tools and what the model said next; it stays open if it
/// said nothing more.
pub open spec fn turns(p: Seq<char>, ms: Seq<MessageV>, i: int, open: bool) -> (Seq<char>, bool)
    decreases ms.len() - i,
{
    if i < 0 || i >= ms.len() {
        (p, open)
    } else {
        let m = ms[i];
        if m.role == "system"@ {
            turns(p, ms, i + 1, open)
        } else if m.role == "tool"@ {
            turns(p + tool_message(m), ms, i + 1, open)
        } else {
            let q = turn_open(p, m);
            if m.role == "assistant"@ && has_calls(m) {
                let (q1, j) = responses(q, ms, i + 1);
                let (q2, k) = continuations(q1, ms, j);
                proof {
                    lemma_forward(q, ms, i + 1);
                    lemma_forward(q1, ms, j);
                }
                if k == j {
                    turns(q2, ms, j, true)
                } else {
                    turns(q2 + TURN_END@ + "\n"@, ms, k, false)
                }
            } else if open && m.role != "user"@ {
                turns(q, ms, i + 1, true)
            } else {
                turns(q + TURN_END@ + "\n"@, ms, i + 1, false)
            }
        }
    }
}

/// The prompt for a conversation: the system turn, the turns, and an open turn of the model.
pub open spec fn prompt_of(
    ms: Seq<MessageV>,
    tools: Option<Seq<ToolV>>,
    choice: Option<JsonV>,
) -> Seq<char> {
    let (p, open) = turns(system_turn(ms, tools, choice), ms, 0, false);
    if open {
        p + priming(ms, tools, choice)
    } else {
        p + TURN_START@ + "model\n"@ + priming(ms, tools, choice)
    }
}

pub fn apply_chat_template(
    messages: &Vec<ChatMessage>,
    tools: Option<&Vec<Tool>>,
    tool_choice: Option<&Json>,
) -> (r: String)
    ensures
        r@ == prompt_of(messages_view(messages@), opt_tools(tools), opt_json(tool_choice)),
{
    proof {
        reveal_strlit("tool");
        reveal_strlit("user");
        reveal_strlit("assistant");
        reveal_strlit("system");
        assert("user"@.len() != "assistant"@.len());
    }
    let ghost ms = messages_view(messages@);
    let mut p: String = render_system_turn(messages, tools, tool_choice);
    let ghost goal = turns(p@, ms, 0, false);
    let mut open: bool = false;
    let mut i: usize = 0;
    while i < messages.len()
        invariant
            i <= messages@.len(),
            ms == messages_view(messages@),
            "user"@ != "assistant"@,
            goal == turns(p@, ms, i as int, open),
        decreases messages@.len() - i,
    {
        let msg = &messages[i];
        assert(ms[i as int] == msg@);
        if is_text(msg.role.as_str(), "system") {
            i += 1;
            continue;
        }
        if is_text(msg.role.as_str(), "tool") {
            p = p.concat(render_tool_message(msg).as_str());
            i += 1;
            continue;
        }
        if is_text(msg.role.as_str(), "user") {
            open = false;
        }
        p = render_turn_open(p, msg);
        i += 1;
        if is_text(msg.role.as_str(), "assistant") && message_has_calls(msg) {
            open = true;
            let ghost q = p@;
            let ghost i0 = i as int;
            proof {
                lemma_forward(q, ms, i0);
            }
            while i < messages.len() && is_text(messages[i].role.as_str(), "tool")
                invariant
                    i <= messages@.len(),
                    ms == messages_view(messages@),
                    responses(q, ms, i0) == responses(p@, ms, i as int),
                decreases messages@.len() - i,
            {
                assert(ms[i as int] == messages@[i as int]@);
                p = p.concat(render_tool_message(&messages[i]).as_str());
                i += 1;
            }
            assert(i < messages@.len() ==> ms[i as int] == messages@[i as int]@);
            assert(responses(q, ms, i0) == (p@, i as int));
            let ghost q1 = p@;
            let ghost j = i as int;
            proof {
                lemma_forward(q1, ms, j);
            }
            while i < messages.len() && is_text(messages[i].role.as_str(), "assistant")
                && !message_has_calls(&messages[i])
                invariant
                    j <= i <= messages@.len(),
                    ms == messages_view(messages@),
                    continuations(q1, ms, j) == continuations(p@, ms, i as int),
                    open == (i == j),
                decreases messages@.len() - i,
            {
                assert(ms[i as int] == messages@[i as int]@);
                if let Some(c) = &messages[i].content {
                    p = p.concat(c.as_str());
                }
                open = false;
                i += 1;
            }
            assert(i < messages@.len() ==> ms[i as int] == messages@[i as int]@);
            assert(continuations(q1, ms, j) == (p@, i as int));
        }
        if !open {
            p = p.concat(TURN_END).concat("\n");
        }
    }
    if open {
        p.concat(generation_priming_suffix(messages, tools, tool_choice))
    } else {
        p.concat(TURN_START).concat("model\n").concat(
            generation_priming_suffix(messages, tools, tool_choice),
        )
    }
}

/// Whether a message always gets a turn of its own.
pub open spec fn has_own_turn(m: MessageV) -> bool {
    m.role == "user"@ || (m.role == "assistant"@ && has_calls(m))
}

/// Nothing that goes on with an open turn passes a message with a turn of its own.
proof fn lemma_stops(p: Seq<char>, ms: Seq<MessageV>, i: int, n: int)
    requires
        0 <= i <= n < ms.len(),
        has_own_turn(ms[n]),
    ensures
        responses(p, ms, i).1 <= n,
        continuations(p, ms, i).1 <= n,
    decreases n - i,
{
    reveal_strlit("tool");
    reveal_strlit("user");
    reveal_strlit("assistant");
    assert("user"@.len() == 4 && "assistant"@.len() == 9);
    assert("user"@[0] != "tool"@[0]);
    if i < n {
        if ms[i].role == "tool"@ {
            lemma_stops(p + tool_message(ms[i]), ms, i + 1, n);
        }
        if ms[i].role == "assistant"@ && !has_calls(ms[i]) {
            lemma_stops(
                match ms[i].content {
                    Some(c) => p + c,
                    None => p,
                },
                ms,
                i + 1,
                n,
            );
        }
    }
}

/// The turns come to every message with a turn of its own.
proof fn lemma_comes_to(p: Seq<char>, ms: Seq<MessageV>, i: int, open: bool, n: int)
    requires
        0 <= i <= n < ms.len(),
        has_own_turn(ms[n]),
    ensures
        exists|q: Seq<char>, o: bool| turns(p, ms, i, open) == #[trigger] turns(q, ms, n, o),
    decreases n - i,
{
    if i < n {
        let m = ms[i];
        if m.role == "system"@ {
            lemma_comes_to(p, ms, i + 1, open, n);
        } else if m.role == "tool"@ {
            lemma_comes_to(p + tool_message(m), ms, i + 1, open, n);
        } else {
            let q = turn_open(p, m);
            if m.role == "assistant"@ && has_calls(m) {
                lemma_forward(q, ms, i + 1);
                lemma_stops(q, ms, i + 1, n);
                let (q1, j) = responses(q, ms, i + 1);
                lemma_forward(q1, ms, j);
                lemma_stops(q1, ms, j, n);
                let (q2, k) = continuations(q1, ms, j);
                if k == j {
                    lemma_comes_to(q2, ms, j, true, n);
                } else {
                    lemma_comes_to(q2 + TURN_END@ + "\n"@, ms, k, false, n);
                }
            } else if open && m.role != "user"@ {
                lemma_comes_to(q, ms, i + 1, true, n);
            } else {
                lemma_comes_to(q + TURN_END@ + "\n"@, ms, i + 1, false, n);
            }
        }
    } else {
        assert(turns(p, ms, i, open) == turns(p, ms, n, open));
    }
}

/// Where the user spoke last, the prompt closes that turn and opens one of the model: it ends with
/// `<turn|>`, a new line, `<|turn>model`, a new line and what primes the model.
pub proof fn lemma_user_is_answered(
    ms: Seq<MessageV>,
    tools: Option<Seq<ToolV>>,
    choice: Option<JsonV>,
)
    requires
        ms.len() > 0,
        ms.last().role == "user"@,
    ensures
        exists|head: Seq<char>|
            prompt_of(ms, tools, choice) == #[trigger] (head + TURN_END@ + "\n"@) + TURN_START@
                + "model\n"@ + priming(ms, tools, choice),
{
    reveal_strlit("tool");
    reveal_strlit("user");
    reveal_strlit("assistant");
    reveal_strlit("system");
    assert("user"@.len() == 4 && "assistant"@.len() == 9 && "system"@.len() == 6);
    assert("user"@[0] != "tool"@[0]);
    let n = ms.len() - 1;
    let p = system_turn(ms, tools, choice);
    lemma_comes_to(p, ms, 0, false, n);
    let (q, o) = choose|q: Seq<char>, o: bool| turns(p, ms, 0, false) == #[trigger] turns(
        q,
        ms,
        n,
        o,
    );
    let head = turn_open(q, ms[n]);
    let closed = head + TURN_END@ + "\n"@;
    assert(turns(closed, ms, n + 1, false) == (closed, false));
    assert(turns(q, ms, n, o) == (closed, false));
}

/// Where the last message but one is the model's with calls and the last a tool's, the result
/// stays in the turn of the model: the prompt ends with the result and what primes the model, and
/// no turn is opened behind it.
pub proof fn lemma_result_stays_open(
    ms: Seq<MessageV>,
    tools: Option<Seq<ToolV>>,
    choice: Option<JsonV>,
)
    requires
        ms.len() > 1,
        ms[ms.len() - 2].role == "assistant"@,
        has_calls(ms[ms.len() - 2]),
        ms.last().role == "tool"@,
    ensures
        exists|q: Seq<char>|
            prompt_of(ms, tools, choice) == #[trigger] turn_open(q, ms[ms.len() - 2])
                + tool_message(ms.last()) + priming(ms, tools, choice),
{
    reveal_strlit("tool");
    reveal_strlit("assistant");
    reveal_strlit("system");
    assert("tool"@.len() == 4 && "assistant"@.len() == 9 && "system"@.len() == 6);
    let n = ms.len() - 2;
    let p = system_turn(ms, tools, choice);
    lemma_comes_to(p, ms, 0, false, n);
    let (q, o) = choose|q: Seq<char>, o: bool| turns(p, ms, 0, false) == #[trigger] turns(
        q,
        ms,
        n,
        o,
    );
    let open = turn_open(q, ms[n]);
    let done = open + tool_message(ms.last());
    assert(responses(done, ms, n + 2) == (done, n + 2));
    assert(responses(open, ms, n + 1) == (done, n + 2));
    assert(continuations(done, ms, n + 2) == (done, n + 2));
    assert(turns(done, ms, n + 2, true) == (done, true));
    assert(turns(q, ms, n, o) == (done, true));
}

/// One user turn and an open turn of the model.
pub fn gemma4_chat_prompt(user: &str) -> (r: String)
    ensures
        r@ == "<|turn>user\n"@ + user@ + "<turn|>\n<|turn>model\n"@,
{
    String::from_str("<|turn>user\n").concat(user).concat("<turn|>\n<|turn>model\n")
}

/// The system contents, set apart by blank lines.
pub open spec fn plain_system(ms: Seq<(&str, &str)>) -> Seq<char>
    decreases ms.len(),
{
    if ms.len() == 0 {
        Seq::empty()
    } else {
        let before = plain_system(ms.drop_last());
        let (role, content) = ms.last();
        if role@ != "system"@ {
            before
        } else if before.len() > 0 {
            before + "\n\n"@ + content@
        } else {
            before + content@
        }
    }
}

/// The other messages, a turn each.
pub open spec fn plain_turns(ms: Seq<(&str, &str)>) -> Seq<char>
    decreases ms.len(),
{
    if ms.len() == 0 {
        Seq::empty()
    } else {
        let before = plain_turns(ms.drop_last());
        let (role, content) = ms.last();
        if role@ == "system"@ {
            before
        } else {
            before + "<|turn>"@ + (if role@ == "assistant"@ {
                "model"@
            } else {
                "user"@
            }) + "\n"@ + content@ + "<turn|>\n"@
        }
    }
}

/// The prompt for messages of role and content; it always opens a turn of the model.
pub open spec fn plain_prompt(ms: Seq<(&str, &str)>) -> Seq<char> {
    let system = plain_system(ms);
    let head = if system.len() > 0 {
        "<|turn>system\n"@ + system + "<turn|>\n"@
    } else {
        ""@
    };
    head + plain_turns(ms) + "<|turn>model\n"@
}

pub fn gemma4_chat_from_messages(messages: &[(&str, &str)]) -> (r: String)
    ensures
        r@ == plain_prompt(messages@),
{
    let mut system: String = String::new();
    let mut body: String = String::new();
    let mut i: usize = 0;
    while i < messages.len()
        invariant
            i <= messages@.len(),
            system@ == plain_system(messages@.take(i as int)),
            body@ == plain_turns(messages@.take(i as int)),
        decreases messages@.len() - i,
    {
        let ghost t = messages@.take(i + 1);
        assert(t.drop_last() =~= messages@.take(i as int));
        assert(t.last() == messages@[i as int]);
        let (role, content) = messages[i];
        if is_text(role, "system") {
            if !system.as_str().is_empty() {
                system = system.concat("\n\n");
            }
            system = system.concat(content);
        } else {
            let mapped = if is_text(role, "assistant") {
                "model"
            } else {
                "user"
            };
            body = body.concat("<|turn>").concat(mapped).concat("\n").concat(content).concat(
                "<turn|>\n",
            );
        }
        i += 1;
    }
    assert(messages@.take(messages@.len() as int) =~= messages@);
    let head = if system.as_str().is_empty() {
        String::from_str("")
    } else {
        String::from_str("<|turn>system\n").concat(system.as_str()).concat("<turn|>\n")
    };
    head.concat(body.as_str()).concat("<|turn>model\n")
}

} // verus!
