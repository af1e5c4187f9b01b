//! Generated text split into reasoning and visible content.

use vstd::prelude::*;
use vstd::string::*;

use crate::text::{
    chars_of, contains, cut, find, find_str, has_str, is_space, is_str, join, join_strings,
    lemma_find, occurs_at, starts_with, starts_with_str, text_of, texts, trim, trim_end, trim_start,
    trimmed,
};

verus! {

pub const CHANNEL_START: &'static str = "<|channel>";

pub const CHANNEL_END: &'static str = "<channel|>";

pub const NATIVE_TOOL_CALL_PREFIX: &'static str = "<|tool_call>call:";

pub const NATIVE_TOOL_CALL_TRIGGER: &'static str = "<|tool_call>";

pub const NATIVE_TOOL_CALL_SUFFIX: &'static str = "<tool_call|>";

/// Whether a text holds the start or the end of a channel.
pub open spec fn marked_up(s: Seq<char>) -> bool {
    contains(s, CHANNEL_START@) || contains(s, CHANNEL_END@)
}

pub fn has_channel_markup(text: &str) -> (r: bool)
    ensures
        r == marked_up(text@),
{
    let v = chars_of(text);
    has_str(&v, CHANNEL_START) || has_str(&v, CHANNEL_END)
}

/// The first line of a channel is its name, the rest its text.
pub open spec fn named_body(body: Seq<char>) -> (Seq<char>, Seq<char>) {
    match find(body, "\n"@, 0) {
        Some(i) => (trim(body.take(i)), trim(body.skip(i + 1))),
        None => (trim(body), Seq::empty()),
    }
}

pub fn parse_named_channel_body(body: &Vec<char>) -> (r: (Vec<char>, Vec<char>))
    ensures
        (r.0@, r.1@) == named_body(body@),
{
    proof {
        reveal_strlit("\n");
    }
    match find_str(body, "\n", 0) {
        Some(i) => {
            let n: usize = body.len();
            let name = cut(body, 0, i);
            let rest = cut(body, i + 1, n);
            assert(name@ =~= body@.take(i as int));
            assert(rest@ =~= body@.skip(i + 1));
            (trimmed(&name), trimmed(&rest))
        },
        None => (trimmed(body), Vec::new()),
    }
}

/// The texts that are not empty.
pub open spec fn visible(parts: Seq<Seq<char>>) -> Seq<Seq<char>> {
    parts.filter(|p: Seq<char>| p.len() > 0)
}

/// The parts that are not empty, a line each.
pub fn join_visible_parts(parts: &Vec<String>) -> (r: String)
    ensures
        r@ == join(visible(texts(parts@)), "\n"@),
{
    let ghost all = texts(parts@);
    let ghost keep = |p: Seq<char>| p.len() > 0;
    let mut kept: Vec<String> = Vec::new();
    let mut i: usize = 0;
    assert(all.take(0).filter(keep) =~= Seq::<Seq<char>>::empty()) by {
        reveal(Seq::filter);
    }
    assert(texts(kept@) =~= Seq::<Seq<char>>::empty());
    while i < parts.len()
        invariant
            i <= parts@.len(),
            all == texts(parts@),
            keep == |p: Seq<char>| p.len() > 0,
            texts(kept@) == all.take(i as int).filter(keep),
        decreases parts@.len() - i,
    {
        let ghost t = all.take(i + 1);
        assert(t.drop_last() =~= all.take(i as int));
        assert(t.last() == parts@[i as int]@);
        proof {
            reveal(Seq::filter);
        }
        let ghost before = kept@;
        if !parts[i].as_str().is_empty() {
            let part = parts[i].clone();
            kept.push(part);
            assert(texts(kept@) =~= texts(before).push(part@));
        }
        i += 1;
    }
    assert(all.take(all.len() as int) =~= all);
    join_strings(&kept, "\n")
}

/// The parts with one more, unless it is empty.
pub open spec fn add_part(parts: Seq<Seq<char>>, p: Seq<char>) -> Seq<Seq<char>> {
    if p.len() > 0 {
        parts.push(p)
    } else {
        parts
    }
}

fn push_part(parts: &mut Vec<String>, p: &Vec<char>)
    ensures
        texts(final(parts)@) == add_part(texts(old(parts)@), p@),
{
    let ghost before = parts@;
    if p.len() > 0 {
        let s = text_of(p);
        parts.push(s);
        assert(texts(parts@) =~= texts(before).push(p@));
    }
}

/// Reasoning and content, part by part.
pub ghost struct Parts {
    pub reasoning: Seq<Seq<char>>,
    pub content: Seq<Seq<char>>,
}

/// The parts with the text of a channel added: `final` is content, anything else reasoning.
pub open spec fn add_channel(p: Parts, name: Seq<char>, text: Seq<char>) -> Parts {
    if name == "final"@ {
        Parts { reasoning: p.reasoning, content: add_part(p.content, text) }
    } else {
        Parts { reasoning: add_part(p.reasoning, text), content: p.content }
    }
}

/// The parts of `rest`, after those of `p`. `after_thought` says whether a thought was closed
/// just before: what follows it is content.
pub open spec fn channel_parts(rest: Seq<char>, after_thought: bool, p: Parts) -> Parts
    decreases rest.len(),
{
    match find(rest, CHANNEL_START@, 0) {
        Some(start) if 0 <= start
            && start + CHANNEL_START@.len() <= rest.len()
            && CHANNEL_START@.len()
            > 0 => {
            let segment = trim(rest.take(start));
            let p1 = if after_thought {
                Parts { reasoning: p.reasoning, content: add_part(p.content, segment) }
            } else {
                Parts { reasoning: add_part(p.reasoning, segment), content: p.content }
            };
            let inner = rest.skip(start + CHANNEL_START@.len());
            match find(inner, CHANNEL_END@, 0) {
                Some(end) if 0 <= end && end + CHANNEL_END@.len() <= inner.len() => {
                    let (name, text) = named_body(inner.take(end));
                    channel_parts(
                        inner.skip(end + CHANNEL_END@.len()),
                        name == "thought"@,
                        add_channel(p1, name, text),
                    )
                },
                _ => {
                    let (name, text) = named_body(inner);
                    add_channel(p1, name, text)
                },
            }
        },
        _ => match find(rest, CHANNEL_END@, 0) {
            Some(end) if 0 <= end && end + CHANNEL_END@.len() <= rest.len() && CHANNEL_END@.len()
                > 0 => channel_parts(
                rest.skip(end + CHANNEL_END@.len()),
                false,
                Parts {
                    reasoning: add_part(p.reasoning, trim(rest.take(end))),
                    content: p.content,
                },
            ),
            _ => if after_thought || p.content.len() > 0 {
                Parts { reasoning: p.reasoning, content: add_part(p.content, trim(rest)) }
            } else {
                Parts { reasoning: add_part(p.reasoning, trim(rest)), content: p.content }
            },
        },
    }
}

/// Splits at channel markup: a `thought` channel is reasoning, a `final` channel or the text
/// after a closed thought is content.
pub fn split_channel_markup(text: &str) -> (r: (String, String))
    ensures
        ({
            let p = channel_parts(
                text@,
                false,
                Parts { reasoning: Seq::empty(), content: Seq::empty() },
            );
            &&& r.0@ == join(visible(p.reasoning), "\n"@)
            &&& r.1@ == join(visible(p.content), "\n"@)
        }),
{
    proof {
        reveal_strlit("<|channel>");
        reveal_strlit("<channel|>");
    }
    let open = chars_of(CHANNEL_START);
    let close = chars_of(CHANNEL_END);
    let mut reasoning: Vec<String> = Vec::new();
    let mut content: Vec<String> = Vec::new();
    let mut rest: Vec<char> = chars_of(text);
    let mut after_thought: bool = false;
    let ghost goal = channel_parts(
        text@,
        false,
        Parts { reasoning: Seq::empty(), content: Seq::empty() },
    );
    assert(texts(reasoning@) =~= Seq::<Seq<char>>::empty());
    assert(texts(content@) =~= Seq::<Seq<char>>::empty());
    let mut done: bool = false;
    while !done
        invariant
            open@ == CHANNEL_START@,
            close@ == CHANNEL_END@,
            CHANNEL_START@.len() == 10,
            CHANNEL_END@.len() == 10,
            !done ==> goal == channel_parts(
                rest@,
                after_thought,
                Parts { reasoning: texts(reasoning@), content: texts(content@) },
            ),
            done ==> goal == (Parts { reasoning: texts(reasoning@), content: texts(content@) }),
        decreases (if done { 0 } else { 1 + rest@.len() }),
    {
        match find_str(&rest, CHANNEL_START, 0) {
            Some(start) => {
                let before = cut(&rest, 0, start);
                assert(before@ =~= rest@.take(start as int));
                let segment = trimmed(&before);
                if after_thought {
                    push_part(&mut content, &segment);
                } else {
                    push_part(&mut reasoning, &segment);
                }
                let inner = cut(&rest, start + open.len(), rest.len());
                assert(inner@ =~= rest@.skip(start + 10));
                match find_str(&inner, CHANNEL_END, 0) {
                    Some(end) => {
                        let body = cut(&inner, 0, end);
                        assert(body@ =~= inner@.take(end as int));
                        let (name, body_text) = parse_named_channel_body(&body);
                        if is_str(&name, "final") {
                            push_part(&mut content, &body_text);
                        } else {
                            push_part(&mut reasoning, &body_text);
                        }
                        after_thought = is_str(&name, "thought");
                        rest = cut(&inner, end + close.len(), inner.len());
                        assert(rest@ =~= inner@.skip(end + 10));
                    },
                    None => {
                        let (name, body_text) = parse_named_channel_body(&inner);
                        if is_str(&name, "final") {
                            push_part(&mut content, &body_text);
                        } else {
                            push_part(&mut reasoning, &body_text);
                        }
                        done = true;
                    },
                }
            },
            None => match find_str(&rest, CHANNEL_END, 0) {
                Some(end) => {
                    let before = cut(&rest, 0, end);
                    assert(before@ =~= rest@.take(end as int));
                    push_part(&mut reasoning, &trimmed(&before));
                    let tail = cut(&rest, end + close.len(), rest.len());
                    assert(tail@ =~= rest@.skip(end + 10));
                    rest = tail;
                    after_thought = false;
                },
                None => {
                    let segment = trimmed(&rest);
                    if after_thought || content.len() > 0 {
                        push_part(&mut content, &segment);
                    } else {
                        push_part(&mut reasoning, &segment);
                    }
                    done = true;
                },
            },
        }
    }
    (join_visible_parts(&reasoning), join_visible_parts(&content))
}

/// A text without its tool calls: from each call's prefix to the next suffix, as long as there
/// is one.
pub open spec fn without_calls(s: Seq<char>) -> Seq<char>
    decreases s.len(),
{
    match find(s, NATIVE_TOOL_CALL_PREFIX@, 0) {
        Some(i) if 0 <= i => match find(s, NATIVE_TOOL_CALL_SUFFIX@, i) {
            Some(j) if i <= j && j + NATIVE_TOOL_CALL_SUFFIX@.len() <= s.len()
                && NATIVE_TOOL_CALL_SUFFIX@.len() > 0 => without_calls(
                s.take(i) + s.skip(j + NATIVE_TOOL_CALL_SUFFIX@.len()),
            ),
            _ => s,
        },
        _ => s,
    }
}

/// Takes the tool calls out of a text, and the white space around it.
pub fn strip_native_tool_calls(text: &mut String)
    ensures
        final(text)@ == trim(without_calls(old(text)@)),
{
    proof {
        reveal_strlit("<tool_call|>");
    }
    let ghost goal = without_calls(text@);
    let suffix = chars_of(NATIVE_TOOL_CALL_SUFFIX);
    let mut v: Vec<char> = chars_of(text.as_str());
    let mut done: bool = false;
    while !done
        invariant
            suffix@ == NATIVE_TOOL_CALL_SUFFIX@,
            NATIVE_TOOL_CALL_SUFFIX@.len() == 12,
            !done ==> goal == without_calls(v@),
            done ==> goal == v@,
        decreases (if done { 0 } else { 1 + v@.len() }),
    {
        match find_str(&v, NATIVE_TOOL_CALL_PREFIX, 0) {
            Some(i) => match find_str(&v, NATIVE_TOOL_CALL_SUFFIX, i) {
                Some(j) => {
                    let n: usize = v.len();
                    let mut kept = cut(&v, 0, i);
                    let mut tail = cut(&v, j + suffix.len(), n);
                    kept.append(&mut tail);
                    assert(kept@ =~= v@.take(i as int) + v@.skip(j + 12));
                    v = kept;
                },
                None => {
                    done = true;
                },
            },
            None => {
                done = true;
            },
        }
    }
    *text = text_of(&trimmed(&v));
}

/// The first line of a text.
pub open spec fn first_line(s: Seq<char>) -> Seq<char> {
    match find(s, "\n"@, 0) {
        Some(i) => s.take(i),
        None => s,
    }
}

/// Whether a paragraph reads like planning rather than an answer.
pub open spec fn is_planning(para: Seq<char>) -> bool {
    ||| starts_with(para, "User "@)
    ||| starts_with(para, "The user "@)
    ||| starts_with(para, "I need "@)
    ||| starts_with(para, "I will "@)
    ||| starts_with(para, "I should "@)
    ||| starts_with(para, "Let me "@)
    ||| starts_with(para, "**Analysis"@)
    ||| starts_with(para, "Analysis"@)
    ||| starts_with(para, "Okay"@)
    ||| starts_with(para, "Ok,"@)
    ||| starts_with(para, "First,"@)
    ||| starts_with(para, "Step "@)
}

fn reads_like_planning(para: &Vec<char>) -> (r: bool)
    ensures
        r == is_planning(para@),
{
    starts_with_str(para, "User ") || starts_with_str(para, "The user ") || starts_with_str(
        para,
        "I need ",
    ) || starts_with_str(para, "I will ") || starts_with_str(para, "I should ") || starts_with_str(
        para,
        "Let me ",
    ) || starts_with_str(para, "**Analysis") || starts_with_str(para, "Analysis")
        || starts_with_str(para, "Okay") || starts_with_str(para, "Ok,") || starts_with_str(
        para,
        "First,",
    ) || starts_with_str(para, "Step ")
}

/// Whether an answer may begin at `i`: the line there is neither blank nor planning.
pub open spec fn answers_at(s: Seq<char>, i: int) -> bool {
    let para = trim(first_line(s.skip(i)));
    para.len() > 0 && !is_planning(para)
}

/// The last place at or after `i`, just behind a blank line, where an answer may begin; `best`
/// if there is none. Blank lines are counted from the left, without overlap.
pub open spec fn answer_start(s: Seq<char>, i: int, best: Option<int>) -> Option<int>
    decreases s.len() - i,
{
    if i < 0 || i + 2 > s.len() {
        best
    } else if s[i] == '\n' && s[i + 1] == '\n' {
        answer_start(
            s,
            i + 2,
            if answers_at(s, i + 2) {
                Some(i + 2)
            } else {
                best
            },
        )
    } else {
        answer_start(s, i + 1, best)
    }
}

/// Where the answer begins in reasoning that was not marked up.
pub fn find_paragraph_answer_start(v: &Vec<char>) -> (r: Option<usize>)
    ensures
        match r {
            Some(i) => answer_start(v@, 0, None) == Some(i as int) && i <= v@.len(),
            None => answer_start(v@, 0, None) is None,
        },
{
    let mut best: Option<usize> = None;
    let mut i: usize = 0;
    while i < v.len() && v.len() - i >= 2
        invariant
            i <= v@.len(),
            best is Some ==> best->0 <= v@.len(),
            answer_start(v@, 0, None) == answer_start(
                v@,
                i as int,
                match best {
                    Some(b) => Some(b as int),
                    None => None,
                },
            ),
        decreases v@.len() - i,
    {
        if v[i] == '\n' && v[i + 1] == '\n' {
            let start: usize = i + 2;
            let rest = cut(v, start, v.len());
            assert(rest@ =~= v@.skip(start as int));
            let line = match find_str(&rest, "\n", 0) {
                Some(e) => {
                    let l = cut(&rest, 0, e);
                    assert(l@ =~= rest@.take(e as int));
                    l
                },
                None => rest,
            };
            let para = trimmed(&line);
            if para.len() > 0 && !reads_like_planning(&para) {
                best = Some(start);
            }
            i = start;
        } else {
            i += 1;
        }
    }
    best
}

/// Reasoning and visible content.
pub ghost struct Answer {
    pub reasoning: Seq<char>,
    pub content: Seq<char>,
}

/// Generated text as reasoning and content. Without markup all of it is content. With markup but
/// no content, the last paragraph of the reasoning that reads like an answer is taken for it.
/// Tool calls are no content.
pub open spec fn answer_of(text: Seq<char>) -> Answer {
    if !marked_up(text) {
        Answer { reasoning: Seq::empty(), content: trim(without_calls(text)) }
    } else {
        let p = channel_parts(
            text,
            false,
            Parts { reasoning: Seq::empty(), content: Seq::empty() },
        );
        let reasoning = join(visible(p.reasoning), "\n"@);
        let content = join(visible(p.content), "\n"@);
        if content.len() > 0 {
            Answer { reasoning, content: trim(without_calls(content)) }
        } else {
            match answer_start(reasoning, 0, None) {
                Some(i) if trim(reasoning.skip(i)).len() > 0 => Answer {
                    reasoning: trim(reasoning.take(i)),
                    content: trim(without_calls(trim(reasoning.skip(i)))),
                },
                _ => Answer { reasoning, content: trim(without_calls(content)) },
            }
        }
    }
}

/// Splits generated text into reasoning and visible content.
pub fn split_reasoning_and_content(text: &str) -> (r: (String, String))
    ensures
        answer_of(text@) == (Answer { reasoning: r.0@, content: r.1@ }),
{
    if !has_channel_markup(text) {
        let mut content: String = String::from_str(text);
        strip_native_tool_calls(&mut content);
        return (String::new(), content);
    }
    let (mut reasoning, mut content) = split_channel_markup(text);
    if content.as_str().is_empty() {
        let v = chars_of(reasoning.as_str());
        if let Some(i) = find_paragraph_answer_start(&v) {
            let tail = cut(&v, i, v.len());
            let head = cut(&v, 0, i);
            assert(tail@ =~= v@.skip(i as int));
            assert(head@ =~= v@.take(i as int));
            let answer = trimmed(&tail);
            let kept = trimmed(&head);
            if answer.len() > 0 {
                reasoning = text_of(&kept);
                content = text_of(&answer);
            }
        }
    }
    strip_native_tool_calls(&mut content);
    (reasoning, content)
}

/// Whether a text holds a tool call from its prefix to its suffix.
pub open spec fn has_closed_call(s: Seq<char>) -> bool {
    exists|i: int, j: int|
        i <= j && #[trigger] occurs_at(s, NATIVE_TOOL_CALL_PREFIX@, i) && #[trigger] occurs_at(
            s,
            NATIVE_TOOL_CALL_SUFFIX@,
            j,
        )
}

/// Where calls are taken out none is left.
proof fn lemma_calls_taken_out(s: Seq<char>)
    ensures
        !has_closed_call(without_calls(s)),
    decreases s.len(),
{
    lemma_find(s, NATIVE_TOOL_CALL_PREFIX@, 0);
    match find(s, NATIVE_TOOL_CALL_PREFIX@, 0) {
        Some(i) => {
            lemma_find(s, NATIVE_TOOL_CALL_SUFFIX@, i);
            match find(s, NATIVE_TOOL_CALL_SUFFIX@, i) {
                Some(j) => {
                    reveal_strlit("<tool_call|>");
                    let t = s.take(i) + s.skip(j + NATIVE_TOOL_CALL_SUFFIX@.len());
                    assert(t.len() < s.len());
                    lemma_calls_taken_out(t);
                },
                None => {
                    assert(without_calls(s) == s);
                    if has_closed_call(s) {
                        let (a, b) = choose|a: int, b: int|
                            a <= b && #[trigger] occurs_at(s, NATIVE_TOOL_CALL_PREFIX@, a)
                                && #[trigger] occurs_at(s, NATIVE_TOOL_CALL_SUFFIX@, b);
                        assert(i <= a);
                        assert(!occurs_at(s, NATIVE_TOOL_CALL_SUFFIX@, b));
                    }
                },
            }
        },
        None => {
            assert(without_calls(s) == s);
            if has_closed_call(s) {
                let (a, b) = choose|a: int, b: int|
                    a <= b && #[trigger] occurs_at(s, NATIVE_TOOL_CALL_PREFIX@, a)
                        && #[trigger] occurs_at(s, NATIVE_TOOL_CALL_SUFFIX@, b);
                assert(!occurs_at(s, NATIVE_TOOL_CALL_PREFIX@, a));
            }
        },
    }
}

/// A text without the white space at its start is its end.
proof fn lemma_trim_start_is_tail(s: Seq<char>) -> (a: int)
    ensures
        0 <= a <= s.len(),
        trim_start(s) == s.skip(a),
    decreases s.len(),
{
    if s.len() > 0 && is_space(s[0]) {
        let b = lemma_trim_start_is_tail(s.skip(1));
        assert(s.skip(1).skip(b) =~= s.skip(b + 1));
        b + 1
    } else {
        assert(s.skip(0) =~= s);
        0
    }
}

/// A text without the white space at its end is its start.
proof fn lemma_trim_end_is_head(s: Seq<char>) -> (b: int)
    ensures
        0 <= b <= s.len(),
        trim_end(s) == s.take(b),
    decreases s.len(),
{
    if s.len() > 0 && is_space(s.last()) {
        let b = lemma_trim_end_is_head(s.drop_last());
        assert(s.drop_last().take(b) =~= s.take(b));
        b
    } else {
        assert(s.take(s.len() as int) =~= s);
        s.len() as int
    }
}

/// The visible content of a generation never holds a closed tool call: calls are for
/// [`crate::server::tools::resolve_tool_calls`] alone.
pub proof fn lemma_content_holds_no_call(text: Seq<char>)
    ensures
        !has_closed_call(answer_of(text).content),
{
    let c = answer_of(text).content;
    let s = choose|s: Seq<char>| c == trim(#[trigger] without_calls(s));
    let t = without_calls(s);
    lemma_calls_taken_out(s);
    let a = lemma_trim_start_is_tail(t);
    let b = lemma_trim_end_is_head(t.skip(a));
    assert(c =~= t.subrange(a, a + b));
    if has_closed_call(c) {
        let (i, j) = choose|i: int, j: int|
            i <= j && #[trigger] occurs_at(c, NATIVE_TOOL_CALL_PREFIX@, i) && #[trigger] occurs_at(
                c,
                NATIVE_TOOL_CALL_SUFFIX@,
                j,
            );
        let p = NATIVE_TOOL_CALL_PREFIX@;
        let q = NATIVE_TOOL_CALL_SUFFIX@;
        assert(t.subrange(a + i, a + i + p.len()) =~= c.subrange(i, i + p.len()));
        assert(t.subrange(a + j, a + j + q.len()) =~= c.subrange(j, j + q.len()));
        assert(occurs_at(t, p, a + i) && occurs_at(t, q, a + j));
    }
}

} // verus!
