//! What a generated text is split into: nothing that was said is lost, and markup and calls are
//! taken out.

use vstd::prelude::*;
use vstd::string::*;

use crate::server::channel::{
    add_channel, add_part, answer_of, answer_start, channel_parts, marked_up, named_body, visible,
    without_calls, Parts, CHANNEL_END, CHANNEL_START, NATIVE_TOOL_CALL_PREFIX,
    NATIVE_TOOL_CALL_SUFFIX, NATIVE_TOOL_CALL_TRIGGER,
};
use crate::server::json::JsonV;
use crate::server::tools::{
    add_call, body_call, call_head, dict_value, native_calls, WantedCall,
};
use crate::text::{
    contains, find, is_space, join, lemma_find, occurs_at, trim, trim_end, trim_start,
};

verus! {

/// Whether `p` stands somewhere in `s`.
pub open spec fn includes(s: Seq<char>, p: Seq<char>) -> bool {
    exists|i: int| #[trigger] occurs_at(s, p, i)
}

/// Whether `t` is `s` without the white space at its two ends.
pub open spec fn core_of(s: Seq<char>, t: Seq<char>) -> bool {
    &&& exists|a: int|
        {
            &&& 0 <= a <= a + t.len() <= s.len()
            &&& #[trigger] s.subrange(a, a + t.len()) == t
            &&& forall|i: int| 0 <= i < a || a + t.len() <= i < s.len() ==> is_space(#[trigger] s[i])
        }
    &&& t.len() > 0 ==> !is_space(t[0]) && !is_space(t.last())
}

proof fn lemma_trim_start(s: Seq<char>) -> (a: int)
    ensures
        0 <= a <= s.len(),
        trim_start(s) == s.skip(a),
        forall|i: int| 0 <= i < a ==> is_space(#[trigger] s[i]),
        a < s.len() ==> !is_space(s[a]),
    decreases s.len(),
{
    if s.len() > 0 && is_space(s[0]) {
        let t = s.skip(1);
        let b = lemma_trim_start(t);
        assert(t.skip(b) =~= s.skip(b + 1));
        assert forall|i: int| 0 <= i < b + 1 implies is_space(#[trigger] s[i]) by {
            if i > 0 {
                assert(t[i - 1] == s[i]);
            }
        }
        assert(b < t.len() ==> t[b] == s[b + 1]);
        b + 1
    } else {
        assert(s.skip(0) =~= s);
        0
    }
}

proof fn lemma_trim_end(s: Seq<char>) -> (b: int)
    ensures
        0 <= b <= s.len(),
        trim_end(s) == s.take(b),
        forall|i: int| b <= i < s.len() ==> is_space(#[trigger] s[i]),
        b > 0 ==> !is_space(s[b - 1]),
    decreases s.len(),
{
    if s.len() > 0 && is_space(s.last()) {
        let t = s.drop_last();
        let b = lemma_trim_end(t);
        assert(t.take(b) =~= s.take(b));
        assert forall|i: int| b <= i < s.len() implies is_space(#[trigger] s[i]) by {
            if i < s.len() - 1 {
                assert(t[i] == s[i]);
            }
        }
        assert(b > 0 ==> t[b - 1] == s[b - 1]);
        b
    } else {
        assert(s.take(s.len() as int) =~= s);
        s.len() as int
    }
}

/// Trimming takes away the white space at the two ends and nothing else.
pub proof fn lemma_trimmed_is_core(s: Seq<char>)
    ensures
        core_of(s, trim(s)),
{
    let a = lemma_trim_start(s);
    let u = s.skip(a);
    let b = lemma_trim_end(u);
    let t = trim(s);
    assert(t == u.take(b));
    assert(s.subrange(a, a + t.len()) =~= t);
    assert forall|i: int| 0 <= i < a || a + t.len() <= i < s.len() implies is_space(
        #[trigger] s[i],
    ) by {
        if i >= a {
            assert(u[i - a] == s[i]);
        }
    }
    if t.len() > 0 {
        assert(t[0] == u[0] && u[0] == s[a]);
        assert(t.last() == u[b - 1]);
    }
}

/// Whether a text holds the start of a call and behind it the end of one.
pub open spec fn has_whole_call(s: Seq<char>) -> bool {
    exists|i: int, j: int|
        i <= j && #[trigger] occurs_at(s, "<|tool_call>call:"@, i) && #[trigger] occurs_at(
            s,
            "<tool_call|>"@,
            j,
        )
}

/// A text without a whole call stays as it is when calls are taken out.
pub proof fn lemma_without_calls_same(s: Seq<char>)
    requires
        !has_whole_call(s),
    ensures
        without_calls(s) == s,
{
    lemma_find(s, NATIVE_TOOL_CALL_PREFIX@, 0);
    match find(s, NATIVE_TOOL_CALL_PREFIX@, 0) {
        Some(i) => {
            lemma_find(s, NATIVE_TOOL_CALL_SUFFIX@, i);
        },
        None => {},
    }
}

/// Where `p` begins with a character that it does not hold again, the first `p` in `a + p + b` is
/// the one behind `a`, unless `a` holds one.
proof fn lemma_first(a: Seq<char>, p: Seq<char>, b: Seq<char>, from: int)
    requires
        p.len() > 0,
        forall|k: int| 0 < k < p.len() ==> #[trigger] p[k] != p[0],
        0 <= from <= a.len(),
        forall|i: int| from <= i ==> !occurs_at(a, p, i),
    ensures
        find(a + p + b, p, from) == Some(a.len() as int),
{
    let s = a + p + b;
    let n = a.len() as int;
    lemma_find(s, p, from);
    assert(s.subrange(n, n + p.len()) =~= p);
    assert(occurs_at(s, p, n));
    let i = find(s, p, from)->0;
    if i < n {
        if i + p.len() <= n {
            assert(a.subrange(i, i + p.len()) =~= s.subrange(i, i + p.len()));
            assert(occurs_at(a, p, i));
        } else {
            assert(s.subrange(i, i + p.len())[n - i] == s[n]);
            assert(s[n] == p[0]);
        }
    }
}

/// A call is taken out whole, and what stands around it stays: before the first call, and behind
/// the end of it.
pub proof fn lemma_call_is_taken_out(a: Seq<char>, body: Seq<char>, b: Seq<char>)
    requires
        !includes(a, "<|tool_call>call:"@),
        !includes(body, "<tool_call|>"@),
    ensures
        without_calls(a + "<|tool_call>call:"@ + body + "<tool_call|>"@ + b) == without_calls(
            a + b,
        ),
{
    reveal_strlit("<|tool_call>call:");
    reveal_strlit("<tool_call|>");
    let p = "<|tool_call>call:"@;
    let q = "<tool_call|>"@;
    let s = a + p + body + q + b;
    assert(s =~= a + p + (body + q + b));
    lemma_first(a, p, body + q + b, 0);
    let c = a + p + body;
    let n = a.len() as int;
    assert(s =~= c + q + b);
    assert forall|i: int| n <= i implies !occurs_at(c, q, i) by {
        if occurs_at(c, q, i) {
            let at = c.subrange(i, i + q.len());
            assert(at[0] == c[i] && at[1] == c[i + 1]);
            if i >= n + p.len() {
                assert(body.subrange(i - n - p.len(), i - n - p.len() + q.len()) =~= at);
                assert(occurs_at(body, q, i - n - p.len()));
            } else {
                assert(c[i] == p[i - n]);
                if i == n {
                    assert(c[i + 1] == p[1]);
                }
            }
        }
    }
    lemma_first(c, q, b, n);
    assert(s.take(n) + s.skip((c.len() + q.len()) as int) =~= a + b);
}

/// A text that holds neither channel markup nor a whole call is its own content: there is no
/// reasoning, and the content is the text without the white space at its two ends.
pub proof fn lemma_plain_text_is_content(text: Seq<char>)
    requires
        !includes(text, "<|channel>"@),
        !includes(text, "<channel|>"@),
        !has_whole_call(text),
    ensures
        answer_of(text).reasoning.len() == 0,
        core_of(text, answer_of(text).content),
{
    lemma_find(text, CHANNEL_START@, 0);
    lemma_find(text, CHANNEL_END@, 0);
    lemma_without_calls_same(text);
    lemma_trimmed_is_core(text);
}

/// What was said before a channel, and the channel: its name and, from the next line on, its text.
pub ghost struct Said {
    pub before: Seq<char>,
    pub name: Seq<char>,
    pub body: Option<Seq<char>>,
}

impl Said {
    /// What stands between the start and the end of the channel.
    pub open spec fn inside(self) -> Seq<char> {
        match self.body {
            Some(b) => self.name + seq!['\n'] + b,
            None => self.name,
        }
    }

    /// Whether it can be told what is said before, the name and the text.
    pub open spec fn clear(self) -> bool {
        &&& !includes(self.before, "<|channel>"@)
        &&& !includes(self.inside(), "<channel|>"@)
        &&& !self.name.contains('\n')
    }

    pub open spec fn called(self, name: Seq<char>) -> bool {
        trim(self.name) == name
    }

    pub open spec fn text(self) -> Seq<char> {
        match self.body {
            Some(b) => b,
            None => Seq::empty(),
        }
    }
}

/// Channels one behind the other, and what was said last.
pub open spec fn spoken(said: Seq<Said>, last: Seq<char>) -> Seq<char>
    decreases said.len(),
{
    if said.len() == 0 {
        last
    } else {
        said[0].before + "<|channel>"@ + said[0].inside() + "<channel|>"@ + spoken(
            said.skip(1),
            last,
        )
    }
}

/// What is said piece by piece, and whether it is content: the text of a channel is where the
/// channel is `final`, and what stands between channels where it follows a `thought`.
pub open spec fn pieces(said: Seq<Said>, after_thought: bool) -> Seq<(Seq<char>, bool)>
    decreases said.len(),
{
    if said.len() == 0 {
        Seq::empty()
    } else {
        seq![(said[0].before, after_thought), (said[0].text(), said[0].called("final"@))] + pieces(
            said.skip(1),
            said[0].called("thought"@),
        )
    }
}

/// The pieces of one kind that are not blank, without the white space around them.
pub open spec fn kept(all: Seq<(Seq<char>, bool)>, content: bool) -> Seq<Seq<char>>
    decreases all.len(),
{
    if all.len() == 0 {
        Seq::empty()
    } else {
        let rest = kept(all.drop_last(), content);
        if all.last().1 == content && trim(all.last().0).len() > 0 {
            rest.push(trim(all.last().0))
        } else {
            rest
        }
    }
}

proof fn lemma_kept_add(a: Seq<(Seq<char>, bool)>, b: Seq<(Seq<char>, bool)>, content: bool)
    ensures
        kept(a + b, content) == kept(a, content) + kept(b, content),
    decreases b.len(),
{
    if b.len() > 0 {
        lemma_kept_add(a, b.drop_last(), content);
        assert((a + b).drop_last() =~= a + b.drop_last());
        assert((a + b).last() == b.last());
        assert(kept(a + b, content) =~= kept(a, content) + kept(b, content));
    } else {
        assert(a + b =~= a);
        assert(kept(a, content) + kept(b, content) =~= kept(a, content));
    }
}

proof fn lemma_kept_two(x: (Seq<char>, bool), y: (Seq<char>, bool), content: bool)
    ensures
        kept(seq![x, y], content) == add_part(
            add_part(
                Seq::empty(),
                if x.1 == content {
                    trim(x.0)
                } else {
                    Seq::empty()
                },
            ),
            if y.1 == content {
                trim(y.0)
            } else {
                Seq::empty()
            },
        ),
{
    reveal_with_fuel(kept, 3);
    let two = seq![x, y];
    assert(two.drop_last() =~= seq![x]);
    assert(seq![x].drop_last() =~= Seq::<(Seq<char>, bool)>::empty());
    assert(kept(seq![x].drop_last(), content) =~= Seq::<Seq<char>>::empty());
    assert(two.last() == y && seq![x].last() == x);
}

/// The first line of what stands inside a channel is its name, the rest its text.
proof fn lemma_named(s: Said)
    requires
        !s.name.contains('\n'),
    ensures
        named_body(s.inside()) == (trim(s.name), trim(s.text())),
{
    reveal_strlit("\n");
    let nl = "\n"@;
    assert(nl =~= seq!['\n']);
    assert forall|i: int| 0 <= i implies !occurs_at(s.name, nl, i) by {
        if occurs_at(s.name, nl, i) {
            assert(s.name.subrange(i, i + 1)[0] == s.name[i]);
            assert(s.name.contains(s.name[i]));
        }
    }
    match s.body {
        Some(b) => {
            lemma_first(s.name, nl, b, 0);
            assert(s.inside() =~= s.name + nl + b);
            assert(s.inside().take(s.name.len() as int) =~= s.name);
            assert(s.inside().skip((s.name.len() + 1) as int) =~= b);
        },
        None => {
            lemma_find(s.name, nl, 0);
            lemma_trimmed_is_core(Seq::<char>::empty());
        },
    }
}

/// Parts with pieces behind them.
pub open spec fn with_pieces(p: Parts, all: Seq<(Seq<char>, bool)>) -> Parts {
    Parts { reasoning: p.reasoning + kept(all, false), content: p.content + kept(all, true) }
}

proof fn lemma_one_said(s: Said, rest: Seq<char>, after_thought: bool, p: Parts)
    requires
        s.clear(),
    ensures
        channel_parts(
            s.before + "<|channel>"@ + s.inside() + "<channel|>"@ + rest,
            after_thought,
            p,
        ) == channel_parts(
            rest,
            s.called("thought"@),
            with_pieces(p, seq![(s.before, after_thought), (s.text(), s.called("final"@))]),
        ),
{
    reveal_strlit("<|channel>");
    reveal_strlit("<channel|>");
    let open = "<|channel>"@;
    let close = "<channel|>"@;
    let all = s.before + open + s.inside() + close + rest;
    let inner = s.inside() + close + rest;
    assert(all =~= s.before + open + inner);
    lemma_first(s.before, open, inner, 0);
    assert(all.take(s.before.len() as int) =~= s.before);
    assert(all.skip((s.before.len() + open.len()) as int) =~= inner);
    lemma_first(s.inside(), close, rest, 0);
    assert(inner.take(s.inside().len() as int) =~= s.inside());
    assert(inner.skip((s.inside().len() + close.len()) as int) =~= rest);
    lemma_named(s);
    let two = seq![(s.before, after_thought), (s.text(), s.called("final"@))];
    lemma_kept_two(two[0], two[1], true);
    lemma_kept_two(two[0], two[1], false);
    let p1 = if after_thought {
        Parts { reasoning: p.reasoning, content: add_part(p.content, trim(s.before)) }
    } else {
        Parts { reasoning: add_part(p.reasoning, trim(s.before)), content: p.content }
    };
    let p2 = add_channel(p1, trim(s.name), trim(s.text()));
    let want = with_pieces(p, two);
    assert(p2.reasoning =~= want.reasoning);
    assert(p2.content =~= want.content);
}

proof fn lemma_all_said(said: Seq<Said>, last: Seq<char>, after_thought: bool, p: Parts)
    requires
        forall|i: int| 0 <= i < said.len() ==> (#[trigger] said[i]).clear(),
    ensures
        channel_parts(spoken(said, last), after_thought, p) == channel_parts(
            last,
            if said.len() == 0 {
                after_thought
            } else {
                said.last().called("thought"@)
            },
            with_pieces(p, pieces(said, after_thought)),
        ),
    decreases said.len(),
{
    if said.len() == 0 {
        let q = with_pieces(p, pieces(said, after_thought));
        assert(q.reasoning =~= p.reasoning && q.content =~= p.content);
    } else {
        let s = said[0];
        let more = said.skip(1);
        let two = seq![(s.before, after_thought), (s.text(), s.called("final"@))];
        lemma_one_said(s, spoken(more, last), after_thought, p);
        assert forall|i: int| 0 <= i < more.len() implies (#[trigger] more[i]).clear() by {
            assert(more[i] == said[i + 1]);
        }
        let q = with_pieces(p, two);
        lemma_all_said(more, last, s.called("thought"@), q);
        let rest = pieces(more, s.called("thought"@));
        lemma_kept_add(two, rest, true);
        lemma_kept_add(two, rest, false);
        let a = with_pieces(q, rest);
        let b = with_pieces(p, pieces(said, after_thought));
        assert(a.reasoning =~= b.reasoning && a.content =~= b.content);
        if more.len() > 0 {
            assert(more.last() == said.last());
        }
    }
}

proof fn lemma_kept_visible(all: Seq<(Seq<char>, bool)>, content: bool)
    ensures
        visible(kept(all, content)) == kept(all, content),
    decreases all.len(),
{
    reveal(Seq::filter);
    if all.len() > 0 {
        lemma_kept_visible(all.drop_last(), content);
        let k = kept(all, content);
        if all.last().1 == content && trim(all.last().0).len() > 0 {
            assert(k.drop_last() =~= kept(all.drop_last(), content));
        }
    } else {
        assert(visible(kept(all, content)) =~= kept(all, content));
    }
}

/// What is left of a generated text when nobody has looked for an answer in the reasoning yet: the
/// pieces of each kind, a line each.
pub open spec fn lines_of(all: Seq<(Seq<char>, bool)>, content: bool) -> Seq<char> {
    join(kept(all, content), seq!['\n'])
}

/// All that is said, in channels and around them. What is said last is content behind a `thought`,
/// or where there is content already.
pub open spec fn all_pieces(said: Seq<Said>, last: Seq<char>) -> Seq<(Seq<char>, bool)> {
    let before = pieces(said, false);
    before.push(
        (last, (said.len() > 0 && said.last().called("thought"@)) || kept(before, true).len() > 0),
    )
}

proof fn lemma_parts_of_spoken(said: Seq<Said>, last: Seq<char>)
    requires
        said.len() > 0,
        forall|i: int| 0 <= i < said.len() ==> (#[trigger] said[i]).clear(),
        !includes(last, "<|channel>"@),
        !includes(last, "<channel|>"@),
    ensures
        ({
            let none = Parts { reasoning: Seq::empty(), content: Seq::empty() };
            let p = channel_parts(spoken(said, last), false, none);
            &&& join(visible(p.reasoning), "\n"@) == lines_of(all_pieces(said, last), false)
            &&& join(visible(p.content), "\n"@) == lines_of(all_pieces(said, last), true)
        }),
        marked_up(spoken(said, last)),
{
    reveal_strlit("\n");
    reveal_strlit("<|channel>");
    assert("\n"@ =~= seq!['\n']);
    let none = Parts { reasoning: Seq::<Seq<char>>::empty(), content: Seq::<Seq<char>>::empty() };
    lemma_all_said(said, last, false, none);
    let before = pieces(said, false);
    let q = with_pieces(none, before);
    assert(q.reasoning =~= kept(before, false) && q.content =~= kept(before, true));
    lemma_find(last, CHANNEL_START@, 0);
    lemma_find(last, CHANNEL_END@, 0);
    let all = all_pieces(said, last);
    assert(all.drop_last() =~= before);
    lemma_kept_visible(all, true);
    lemma_kept_visible(all, false);
    let p = channel_parts(spoken(said, last), false, none);
    assert(p.reasoning =~= kept(all, false));
    assert(p.content =~= kept(all, true));
    let s = said[0];
    let t = spoken(said, last);
    let n = s.before.len() as int;
    assert(t.subrange(n, n + 10) =~= "<|channel>"@);
    assert(occurs_at(t, "<|channel>"@, n));
    lemma_find(t, CHANNEL_START@, 0);
}

/// Nothing that is said is lost. Of channels and texts around them every piece that is not blank
/// stands in the content or in the reasoning, in order and a line each: the content is made of the
/// `final` channels and of what follows a `thought` or other content.
pub proof fn lemma_everything_said_is_kept(said: Seq<Said>, last: Seq<char>)
    requires
        said.len() > 0,
        forall|i: int| 0 <= i < said.len() ==> (#[trigger] said[i]).clear(),
        !includes(last, "<|channel>"@),
        !includes(last, "<channel|>"@),
        lines_of(all_pieces(said, last), true).len() > 0,
        !has_whole_call(lines_of(all_pieces(said, last), true)),
    ensures
        answer_of(spoken(said, last)).reasoning == lines_of(all_pieces(said, last), false),
        core_of(lines_of(all_pieces(said, last), true), answer_of(spoken(said, last)).content),
{
    lemma_parts_of_spoken(said, last);
    let c = lines_of(all_pieces(said, last), true);
    lemma_without_calls_same(c);
    lemma_trimmed_is_core(c);
}

/// Where an answer is found: the last place behind a blank line, if any.
proof fn lemma_answer_start(s: Seq<char>, i: int, best: Option<int>)
    requires
        0 <= i,
    ensures
        match answer_start(s, i, best) {
            Some(k) => best == Some(k) || (2 <= k <= s.len() && s[k - 1] == '\n' && s[k - 2]
                == '\n'),
            None => best is None,
        },
    decreases s.len() - i,
{
    if i + 2 > s.len() {
    } else if s[i] == '\n' && s[i + 1] == '\n' {
        lemma_answer_start(
            s,
            i + 2,
            if crate::server::channel::answers_at(s, i + 2) {
                Some(i + 2)
            } else {
                best
            },
        );
    } else {
        lemma_answer_start(s, i + 1, best);
    }
}

/// Where everything that was said is reasoning, the reasoning stays as it is and there is no
/// content, or it is cut in two behind a blank line: what stands before is the reasoning, what
/// stands behind the content, and no more than white space is lost.
pub proof fn lemma_reasoning_is_kept_or_cut(said: Seq<Said>, last: Seq<char>)
    requires
        said.len() > 0,
        forall|i: int| 0 <= i < said.len() ==> (#[trigger] said[i]).clear(),
        !includes(last, "<|channel>"@),
        !includes(last, "<channel|>"@),
        lines_of(all_pieces(said, last), true).len() == 0,
        !has_whole_call(lines_of(all_pieces(said, last), false)),
    ensures
        ({
            let r = lines_of(all_pieces(said, last), false);
            let a = answer_of(spoken(said, last));
            ||| a.reasoning == r && a.content.len() == 0
            ||| exists|k: int|
                {
                    &&& 2 <= k <= r.len()
                    &&& r[k - 1] == '\n' && r[k - 2] == '\n'
                    &&& core_of(#[trigger] r.take(k), a.reasoning)
                    &&& core_of(r.skip(k), a.content)
                    &&& a.content.len() > 0
                }
        }),
{
    lemma_parts_of_spoken(said, last);
    let r = lines_of(all_pieces(said, last), false);
    let c = lines_of(all_pieces(said, last), true);
    let a = answer_of(spoken(said, last));
    lemma_answer_start(r, 0, None);
    assert(c =~= Seq::<char>::empty());
    assert(!has_whole_call(c)) by {
        reveal_strlit("<tool_call|>");
        if has_whole_call(c) {
            let (i, j) = choose|i: int, j: int|
                i <= j && #[trigger] occurs_at(c, "<|tool_call>call:"@, i) && #[trigger] occurs_at(
                    c,
                    "<tool_call|>"@,
                    j,
                );
        }
    }
    lemma_without_calls_same(c);
    lemma_trimmed_is_core(c);
    match answer_start(r, 0, None) {
        Some(k) if trim(r.skip(k)).len() > 0 => {
            let t = trim(r.skip(k));
            lemma_trimmed_is_core(r.take(k));
            lemma_trimmed_is_core(r.skip(k));
            let w = choose|w: int|
                {
                    &&& 0 <= w <= w + t.len() <= r.skip(k).len()
                    &&& #[trigger] r.skip(k).subrange(w, w + t.len()) == t
                };
            if has_whole_call(t) {
                let (i, j) = choose|i: int, j: int|
                    i <= j && #[trigger] occurs_at(t, "<|tool_call>call:"@, i)
                        && #[trigger] occurs_at(t, "<tool_call|>"@, j);
                let (p, q) = ("<|tool_call>call:"@, "<tool_call|>"@);
                assert(r.subrange(k + w + i, k + w + i + p.len()) =~= t.subrange(i, i + p.len()));
                assert(r.subrange(k + w + j, k + w + j + q.len()) =~= t.subrange(j, j + q.len()));
                assert(occurs_at(r, p, k + w + i) && occurs_at(r, q, k + w + j));
            }
            lemma_without_calls_same(t);
            lemma_core_again(t);
            assert(a.content == t);
            assert(core_of(r.take(k), a.reasoning));
        },
        _ => {},
    }
}

/// What has no white space at its ends is its own core.
proof fn lemma_core_again(t: Seq<char>)
    requires
        t.len() > 0 ==> !is_space(t[0]) && !is_space(t.last()),
    ensures
        trim(t) == t,
{
    reveal_with_fuel(trim_start, 1);
    assert(trim_start(t) == t);
    assert(trim_end(t) == t);
}

/// What stands in front of a text and holds no start of a call does not change where the first call
/// in it starts.
proof fn lemma_find_behind(x: Seq<char>, b: Seq<char>, p: Seq<char>)
    requires
        p.len() > 0,
        forall|k: int| 0 <= k < x.len() ==> #[trigger] x[k] != p[0],
    ensures
        find(x + b, p, 0) == (match find(b, p, 0) {
            Some(i) => Some(i + x.len()),
            None => None,
        }),
{
    let s = x + b;
    let n = x.len() as int;
    lemma_find(s, p, 0);
    lemma_find(b, p, 0);
    assert forall|i: int| #[trigger] occurs_at(s, p, i) implies i >= n && occurs_at(
        b,
        p,
        i - n,
    ) by {
        assert(s.subrange(i, i + p.len())[0] == s[i]);
        if i < n {
            assert(s[i] == x[i]);
        }
        assert(b.subrange(i - n, i - n + p.len()) =~= s.subrange(i, i + p.len()));
    }
    assert forall|i: int| #[trigger] occurs_at(b, p, i) implies occurs_at(s, p, i + n) by {
        assert(s.subrange(i + n, i + n + p.len()) =~= b.subrange(i, i + p.len()));
    }
    match find(b, p, 0) {
        Some(i) => {
            assert(occurs_at(s, p, i + n));
            let k = find(s, p, 0)->0;
            assert(occurs_at(b, p, k - n));
        },
        None => {
            if find(s, p, 0) is Some {
                assert(occurs_at(b, p, find(s, p, 0)->0 - n));
            }
        },
    }
}

proof fn lemma_calls_behind(
    x: Seq<char>,
    b: Seq<char>,
    allowed: Option<Seq<Seq<char>>>,
    acc: Seq<WantedCall>,
)
    requires
        forall|k: int| 0 <= k < x.len() ==> #[trigger] x[k] != '<',
    ensures
        native_calls(x + b, allowed, acc) == native_calls(b, allowed, acc),
{
    reveal_strlit("<|tool_call>");
    let t = NATIVE_TOOL_CALL_TRIGGER@;
    lemma_find_behind(x, b, t);
    lemma_find(b, t, 0);
    match find(b, t, 0) {
        Some(i) => {
            let s = x + b;
            let n = x.len() as int;
            assert(s.skip(i + n + t.len()) =~= b.skip(i + t.len()));
            let after = call_head(b.skip(i + t.len()));
            match find(after, NATIVE_TOOL_CALL_SUFFIX@, 0) {
                Some(e) => {
                    let m = i + t.len() + e + NATIVE_TOOL_CALL_SUFFIX@.len();
                    if m <= b.len() && e >= 0 {
                        assert(s.skip(m + n) =~= b.skip(m));
                    }
                },
                None => {},
            }
        },
        None => {},
    }
}

/// A call that is written in a generated text is read: its name and its arguments are the next
/// call, in order, and the rest of the text is read on behind it.
pub proof fn lemma_call_is_read(
    a: Seq<char>,
    name: Seq<char>,
    dict: Seq<char>,
    b: Seq<char>,
    args: JsonV,
    allowed: Option<Seq<Seq<char>>>,
    acc: Seq<WantedCall>,
)
    requires
        !includes(a, "<|tool_call>"@),
        !includes(name + dict, "<tool_call|>"@),
        name.len() > 0,
        !is_space(name[0]),
        !is_space(name.last()),
        !name.contains('{'),
        dict.len() > 0,
        dict[0] == '{',
        dict_value(dict) == Some(args),
        allowed matches Some(names) ==> names.contains(name),
    ensures
        native_calls(
            a + "<|tool_call>call:"@ + name + dict + "<tool_call|>"@ + b,
            allowed,
            acc,
        ) == native_calls(b, allowed, acc.push(WantedCall { name, args })),
{
    reveal_strlit("<|tool_call>");
    reveal_strlit("<|tool_call>call:");
    reveal_strlit("call:");
    reveal_strlit("<tool_call|>");
    reveal_strlit("{");
    let t = NATIVE_TOOL_CALL_TRIGGER@;
    let q = NATIVE_TOOL_CALL_SUFFIX@;
    let word = "call:"@;
    let body = name + dict;
    assert("<|tool_call>call:"@ =~= t + word);
    let s = a + "<|tool_call>call:"@ + name + dict + "<tool_call|>"@ + b;
    let behind = word + body + q + b;
    assert(s =~= a + t + behind);
    lemma_first(a, t, behind, 0);
    let start = a.len() as int;
    assert(s.skip(start + t.len()) =~= behind);
    assert(behind.subrange(0, 5) =~= word);
    let after = body + q + b;
    assert(behind.skip(5) =~= after);
    assert(call_head(behind) == after);
    lemma_first(body, q, b, 0);
    let end = body.len() as int;
    assert(after.take(end) =~= body);
    let rest = s.skip(start + t.len() + end + q.len());
    let x = q.skip(7);
    assert(rest =~= x + b);
    lemma_calls_behind(x, b, allowed, add_call(acc, body_call(body, allowed)));
    let brace = "{"@;
    assert forall|i: int| 0 <= i implies !occurs_at(name, brace, i) by {
        if occurs_at(name, brace, i) {
            assert(name.subrange(i, i + 1)[0] == name[i]);
            assert(name.contains(name[i]));
        }
    }
    lemma_first(name, brace, dict.skip(1), 0);
    assert(body =~= name + brace + dict.skip(1));
    assert(body.take(name.len() as int) =~= name);
    assert(body.skip(name.len() as int) =~= dict);
    lemma_core_again(name);
    assert(body_call(body, allowed) == Some(WantedCall { name, args }));
}

/// A text without the start of a call holds no calls.
pub proof fn lemma_no_call_is_read(
    s: Seq<char>,
    allowed: Option<Seq<Seq<char>>>,
    acc: Seq<WantedCall>,
)
    requires
        !includes(s, "<|tool_call>"@),
    ensures
        native_calls(s, allowed, acc) == acc,
{
    lemma_find(s, NATIVE_TOOL_CALL_TRIGGER@, 0);
}

/// A channel that is never closed reaches to the end: what was said before it and its text are
/// kept as if it were closed there.
proof fn lemma_open_said(s: Said, after_thought: bool, p: Parts)
    requires
        s.clear(),
    ensures
        channel_parts(s.before + "<|channel>"@ + s.inside(), after_thought, p) == with_pieces(
            p,
            seq![(s.before, after_thought), (s.text(), s.called("final"@))],
        ),
{
    reveal_strlit("<|channel>");
    reveal_strlit("<channel|>");
    let open = "<|channel>"@;
    let all = s.before + open + s.inside();
    lemma_first(s.before, open, s.inside(), 0);
    assert(all.take(s.before.len() as int) =~= s.before);
    assert(all.skip((s.before.len() + open.len()) as int) =~= s.inside());
    lemma_find(s.inside(), CHANNEL_END@, 0);
    lemma_named(s);
    let two = seq![(s.before, after_thought), (s.text(), s.called("final"@))];
    lemma_kept_two(two[0], two[1], true);
    lemma_kept_two(two[0], two[1], false);
    let p1 = if after_thought {
        Parts { reasoning: p.reasoning, content: add_part(p.content, trim(s.before)) }
    } else {
        Parts { reasoning: add_part(p.reasoning, trim(s.before)), content: p.content }
    };
    let p2 = add_channel(p1, trim(s.name), trim(s.text()));
    let want = with_pieces(p, two);
    assert(p2.reasoning =~= want.reasoning);
    assert(p2.content =~= want.content);
}

/// A text with an open channel is marked up.
proof fn lemma_marked(said: Seq<Said>, s: Said)
    ensures
        marked_up(spoken(said, s.before + "<|channel>"@ + s.inside())),
{
    reveal_strlit("<|channel>");
    let text = spoken(said, s.before + "<|channel>"@ + s.inside());
    let n = if said.len() == 0 {
        s.before.len() as int
    } else {
        said[0].before.len() as int
    };
    assert(text.subrange(n, n + 10) =~= "<|channel>"@);
    assert(occurs_at(text, "<|channel>"@, n));
    lemma_find(text, CHANNEL_START@, 0);
}

/// A text that stops within a channel loses nothing either: the pieces of the channels before it,
/// what stands before the last one and its text so far are kept, in order and a line each.
pub proof fn lemma_open_channel_is_kept(said: Seq<Said>, s: Said)
    requires
        forall|i: int| 0 <= i < said.len() ==> (#[trigger] said[i]).clear(),
        s.clear(),
    ensures
        ({
            let last = s.before + "<|channel>"@ + s.inside();
            let behind = said.len() > 0 && said.last().called("thought"@);
            let all = pieces(said, false) + seq![
                (s.before, behind),
                (s.text(), s.called("final"@)),
            ];
            let a = answer_of(spoken(said, last));
            lines_of(all, true).len() > 0 && !has_whole_call(lines_of(all, true)) ==> {
                &&& a.reasoning == lines_of(all, false)
                &&& core_of(lines_of(all, true), a.content)
            }
        }),
{
    assert("\n"@ =~= seq!['\n']) by {
        reveal_strlit("\n");
    }
    let none = Parts { reasoning: Seq::<Seq<char>>::empty(), content: Seq::<Seq<char>>::empty() };
    let last = s.before + "<|channel>"@ + s.inside();
    let behind = said.len() > 0 && said.last().called("thought"@);
    let two = seq![(s.before, behind), (s.text(), s.called("final"@))];
    let first = pieces(said, false);
    let all = first + two;
    lemma_all_said(said, last, false, none);
    let q = with_pieces(none, first);
    lemma_open_said(s, behind, q);
    lemma_kept_add(first, two, true);
    lemma_kept_add(first, two, false);
    let p = channel_parts(spoken(said, last), false, none);
    assert(p.reasoning =~= kept(all, false));
    assert(p.content =~= kept(all, true));
    lemma_kept_visible(all, true);
    lemma_kept_visible(all, false);
    lemma_marked(said, s);
    let c = lines_of(all, true);
    if c.len() > 0 && !has_whole_call(c) {
        lemma_without_calls_same(c);
        lemma_trimmed_is_core(c);
    }
}

} // verus!
