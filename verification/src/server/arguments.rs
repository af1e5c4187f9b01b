//! Flat arguments of a tool call, as they are written and as they are read.

use vstd::prelude::*;
use vstd::string::*;

use crate::server::chat::{gemma_fields, gemma_of};
use crate::server::json::{is_plain, with_field, FieldV, JsonV};
use crate::server::tools::{strip_left, strip_right, unmarked, GEMMA4_STR};
use crate::text::{find, is_space, join, lemma_find, occurs_at, trim, trim_end, trim_start};

verus! {

/// Whether a character can stand in the key of a flat argument.
pub open spec fn key_char(ch: char) -> bool {
    ch != ',' && ch != ':' && ch != '"' && ch != '{' && ch != '}' && !is_space(ch)
}

/// Whether a string can be the value of a flat argument: it needs no escapes, and holds neither
/// commas nor braces.
pub open spec fn flat_string(s: Seq<char>) -> bool {
    is_plain(s) && !s.contains(',') && !s.contains('{') && !s.contains('}')
}

/// Whether a value is a string of that kind, a truth value or null.
pub open spec fn flat_value(v: JsonV) -> bool {
    match v {
        JsonV::Str(s) => flat_string(s),
        JsonV::Bool(_) | JsonV::Null => true,
        _ => false,
    }
}

/// Whether arguments are flat: keys of their own, and values of these kinds.
pub open spec fn flat_fields(o: Seq<FieldV>) -> bool {
    &&& forall|i: int| 0 <= i < o.len() ==> flat_value((#[trigger] o[i]).value)
    &&& forall|i: int, j: int|
        0 <= i < o.len() && 0 <= j < o[i].key.len() ==> key_char(#[trigger] o[i].key[j])
    &&& forall|i: int, j: int| 0 <= i < j < o.len() ==> (#[trigger] o[i]).key != (#[trigger]
    o[j]).key
}

/// A flat value as it is written, or, once its markers are quotes, as it is read.
pub open spec fn value_text(v: JsonV, marked: bool) -> Seq<char> {
    match v {
        JsonV::Str(s) if !marked => seq!['"'] + s + seq!['"'],
        _ => gemma_of(v),
    }
}

/// A member as it is written or read.
pub open spec fn member_text(f: FieldV, marked: bool) -> Seq<char> {
    f.key + seq![':'] + value_text(f.value, marked)
}

/// What stands between a member and the next, if there is one.
pub open spec fn gap(o: Seq<FieldV>, k: int) -> Seq<char> {
    if k + 1 < o.len() {
        seq![',']
    } else {
        Seq::empty()
    }
}

/// The members from `k` on, as they are written or read.
pub open spec fn members(o: Seq<FieldV>, marked: bool, k: int) -> Seq<char>
    decreases o.len() - k,
{
    if k < 0 || k >= o.len() {
        Seq::empty()
    } else {
        member_text(o[k], marked) + gap(o, k) + members(o, marked, k + 1)
    }
}

/// Whether a text holds no quote.
spec fn unquoted(s: Seq<char>) -> bool {
    forall|i: int| 0 <= i < s.len() ==> #[trigger] s[i] != '"'
}

proof fn lemma_written_from(o: Seq<FieldV>, n: int)
    requires
        1 <= n <= o.len(),
    ensures
        join(gemma_fields(o).take(n), ","@) + gap(o, n - 1) + members(o, true, n) == members(
            o,
            true,
            0,
        ),
    decreases n,
{
    reveal_strlit(",");
    reveal_strlit(":");
    let parts = gemma_fields(o);
    assert forall|i: int| 0 <= i < o.len() implies #[trigger] parts[i] == member_text(
        o[i],
        true,
    ) by {
        assert(":"@ =~= seq![':']);
    }
    if n == 1 {
        assert(parts.take(1)[0] == parts[0]);
        assert(join(parts.take(1), ","@) == member_text(o[0], true));
    } else {
        lemma_written_from(o, n - 1);
        assert(parts.take(n).drop_last() =~= parts.take(n - 1));
        assert(parts.take(n).last() == parts[n - 1]);
        assert(","@ =~= seq![',']);
        let head = join(parts.take(n - 1), ","@);
        assert(join(parts.take(n), ","@) == head + ","@ + parts[n - 1]);
        let rest = gap(o, n - 1) + members(o, true, n);
        assert(members(o, true, n - 1) =~= parts[n - 1] + rest);
        assert(head + ","@ + parts[n - 1] + gap(o, n - 1) + members(o, true, n) =~= head + seq![',']
            + (parts[n - 1] + rest));
    }
}

/// Arguments are written member by member.
pub proof fn lemma_written(o: Seq<FieldV>)
    ensures
        gemma_of(JsonV::Object(o)) == seq!['{'] + members(o, true, 0) + seq!['}'],
{
    reveal_strlit("{");
    reveal_strlit("}");
    assert("{"@ =~= seq!['{'] && "}"@ =~= seq!['}']);
    let parts = gemma_fields(o);
    if o.len() > 0 {
        lemma_written_from(o, o.len() as int);
        assert(parts.take(o.len() as int) =~= parts);
        assert(join(parts, ","@) + gap(o, o.len() - 1) + members(o, true, o.len() as int) =~= join(
            parts,
            ","@,
        ));
    }
}

/// The first marker stands where the first quote does.
proof fn lemma_mark_at(a: Seq<char>, b: Seq<char>)
    requires
        unquoted(a),
    ensures
        find(a + GEMMA4_STR@ + b, GEMMA4_STR@, 0) == Some(a.len() as int),
{
    reveal_strlit("<|\"|>");
    let m = GEMMA4_STR@;
    let s = a + m + b;
    lemma_find(s, m, 0);
    let n = a.len() as int;
    assert(s.subrange(n, n + 5) =~= m);
    assert(occurs_at(s, m, n));
    let i = find(s, m, 0)->0;
    if i < n {
        assert(s.subrange(i, i + 5)[2] == m[2]);
        assert(s[i + 2] == '"');
        if i + 2 < n {
            assert(s[i + 2] == a[i + 2]);
        } else if i + 2 == n {
            assert(s[i + 2] == m[0]);
        } else {
            assert(s[i + 2] == m[1]);
        }
    }
}

/// A text without quotes has no marker.
proof fn lemma_no_mark(s: Seq<char>)
    requires
        unquoted(s),
    ensures
        unmarked(s) == Some(s),
{
    reveal_strlit("<|\"|>");
    lemma_find(s, GEMMA4_STR@, 0);
    match find(s, GEMMA4_STR@, 0) {
        Some(i) => {
            assert(s.subrange(i, i + 5)[2] == GEMMA4_STR@[2]);
            assert(s[i + 2] == '"');
        },
        None => {},
    }
}

proof fn lemma_word_unquoted(v: JsonV)
    requires
        flat_value(v),
        !(v is Str),
    ensures
        unquoted(value_text(v, true)),
        value_text(v, true) == value_text(v, false),
        value_text(v, true).len() > 0,
        forall|i: int|
            0 <= i < value_text(v, true).len() ==> 'a' <= #[trigger] value_text(v, true)[i]
                && value_text(v, true)[i] <= 'z',
{
    reveal_strlit("true");
    reveal_strlit("false");
    reveal_strlit("null");
}

/// One marked string becomes a quoted one.
proof fn lemma_unmark_one(a: Seq<char>, t: Seq<char>, b: Seq<char>, done: Seq<char>)
    requires
        unquoted(a),
        unquoted(t),
        unmarked(b) == Some(done),
    ensures
        unmarked(a + GEMMA4_STR@ + (t + GEMMA4_STR@ + b)) == Some(
            a + seq!['"'] + t + seq!['"'] + done,
        ),
{
    reveal_strlit("<|\"|>");
    reveal_strlit("\"");
    let m = GEMMA4_STR@;
    let s = a + m + (t + m + b);
    assert("\""@ =~= seq!['"']);
    lemma_mark_at(a, t + m + b);
    lemma_mark_at(t, b);
    let after = s.skip(a.len() as int + 5);
    assert(after =~= t + m + b);
    assert(after.skip(t.len() as int + 5) =~= b);
    assert(s.take(a.len() as int) =~= a);
    assert(after.take(t.len() as int) =~= t);
}

/// Texts put together in another order.
proof fn lemma_regrouped(
    pre: Seq<char>,
    key: Seq<char>,
    val: Seq<char>,
    g: Seq<char>,
    rest: Seq<char>,
    end: Seq<char>,
)
    ensures
        pre + ((key + seq![':'] + val) + g + rest) + end == (pre + key + seq![':']) + (val + (g
            + rest + end)),
        pre + ((key + seq![':'] + val) + g + rest) + end == (pre + key + seq![':'] + val + g) + rest
            + end,
{
    assert(pre + ((key + seq![':'] + val) + g + rest) + end =~= (pre + key + seq![':']) + (val + (g
        + rest + end)));
    assert(pre + ((key + seq![':'] + val) + g + rest) + end =~= (pre + key + seq![':'] + val + g)
        + rest + end);
}

proof fn lemma_head_unquoted(o: Seq<FieldV>, pre: Seq<char>, k: int)
    requires
        flat_fields(o),
        unquoted(pre),
        0 <= k < o.len(),
    ensures
        unquoted(pre + o[k].key + seq![':']),
{
    let key = o[k].key;
    let a = pre + key + seq![':'];
    assert forall|i: int| 0 <= i < a.len() implies #[trigger] a[i] != '"' by {
        if pre.len() <= i < pre.len() + key.len() {
            assert(key_char(o[k].key[i - pre.len()]));
        }
    }
}

proof fn lemma_unquoted_cat(a: Seq<char>, b: Seq<char>)
    requires
        unquoted(a),
        unquoted(b),
    ensures
        unquoted(a + b),
{
    let s = a + b;
    assert forall|i: int| 0 <= i < s.len() implies #[trigger] s[i] != '"' by {
        if i < a.len() {
            assert(s[i] == a[i]);
        } else {
            assert(s[i] == b[i - a.len()]);
        }
    }
}

/// Marked strings become quoted ones.
proof fn lemma_unmark(o: Seq<FieldV>, pre: Seq<char>, k: int)
    requires
        flat_fields(o),
        unquoted(pre),
        0 <= k <= o.len(),
    ensures
        unmarked(pre + members(o, true, k) + seq!['}']) == Some(
            pre + members(o, false, k) + seq!['}'],
        ),
    decreases o.len() - k,
{
    let end = seq!['}'];
    if k == o.len() {
        lemma_unquoted_cat(pre, members(o, true, k));
        lemma_unquoted_cat(pre + members(o, true, k), end);
        lemma_no_mark(pre + members(o, true, k) + end);
    } else {
        let f = o[k];
        let g = gap(o, k);
        let more = members(o, true, k + 1);
        let read = members(o, false, k + 1);
        let (v1, v2) = (value_text(f.value, true), value_text(f.value, false));
        let a = pre + f.key + seq![':'];
        assert(flat_value(o[k].value));
        lemma_head_unquoted(o, pre, k);
        lemma_regrouped(pre, f.key, v1, g, more, end);
        lemma_regrouped(pre, f.key, v2, g, read, end);
        match f.value {
            JsonV::Str(t) => {
                let m = GEMMA4_STR@;
                let q = seq!['"'];
                lemma_unmark(o, g, k + 1);
                assert(unquoted(t));
                let (b, done) = (g + more + end, g + read + end);
                lemma_unmark_one(a, t, b, done);
                assert(a + (v1 + b) =~= a + m + (t + m + b));
                assert(a + (v2 + done) =~= a + q + t + q + done);
            },
            _ => {
                lemma_word_unquoted(f.value);
                lemma_unquoted_cat(a, v1);
                lemma_unquoted_cat(a + v1, g);
                lemma_unmark(o, a + v1 + g, k + 1);
            },
        }
    }
}

proof fn lemma_trim_none(s: Seq<char>)
    requires
        s.len() > 0,
        !is_space(s[0]),
        !is_space(s.last()),
    ensures
        trim(s) == s,
{
    assert(trim_start(s) == s);
    assert(trim_end(s) == s);
}

/// The first and the last character of a value.
proof fn lemma_value_ends(v: JsonV)
    requires
        flat_value(v),
    ensures
        ({
            let t = value_text(v, false);
            &&& t.len() > 0
            &&& !is_space(t[0]) && !is_space(t.last())
            &&& t[0] != '{' && t.last() != '}'
            &&& forall|i: int| 0 <= i < t.len() ==> #[trigger] t[i] != ','
        }),
{
    let t = value_text(v, false);
    match v {
        JsonV::Str(s) => {
            assert forall|i: int| 0 <= i < t.len() implies #[trigger] t[i] != ',' by {
                if 1 <= i < t.len() - 1 {
                    assert(t[i] == s[i - 1]);
                    assert(s.contains(s[i - 1]));
                }
            }
        },
        _ => {
            lemma_word_unquoted(v);
            assert('a' <= t[0] && t[0] <= 'z');
            assert('a' <= t[t.len() - 1] && t[t.len() - 1] <= 'z');
        },
    }
}

proof fn lemma_members_end(o: Seq<FieldV>, k: int)
    requires
        flat_fields(o),
        0 <= k < o.len(),
    ensures
        members(o, false, k).len() > 0,
        members(o, false, k).last() != '}',
    decreases o.len() - k,
{
    let t = value_text(o[k].value, false);
    lemma_value_ends(o[k].value);
    let s = members(o, false, k);
    if k + 1 < o.len() {
        lemma_members_end(o, k + 1);
        assert(s.last() == members(o, false, k + 1).last());
    } else {
        assert(members(o, false, k + 1).len() == 0);
        assert(s.last() == t.last());
    }
}

/// What is read of written arguments before they are taken apart: their members, with quotes for
/// markers.
pub proof fn lemma_body(o: Seq<FieldV>)
    requires
        flat_fields(o),
    ensures
        ({
            let d = gemma_of(JsonV::Object(o));
            &&& unmarked(trim(d)) matches Some(out) && strip_right(
                strip_left(trim(out), '{'),
                '}',
            ) == members(o, false, 0)
        }),
        o.len() > 0 ==> members(o, false, 0).len() > 0,
{
    let d = gemma_of(JsonV::Object(o));
    lemma_written(o);
    lemma_trim_none(d);
    lemma_unmark(o, seq!['{'], 0);
    let m = members(o, false, 0);
    let out = seq!['{'] + m + seq!['}'];
    assert(d == seq!['{'] + members(o, true, 0) + seq!['}']);
    lemma_trim_none(out);
    let t = m + seq!['}'];
    assert(out.skip(1) =~= t);
    if o.len() > 0 {
        lemma_members_end(o, 0);
        let key = o[0].key;
        assert(m[0] == (key + seq![':'])[0]);
        if key.len() > 0 {
            assert(key_char(o[0].key[0]));
        }
        assert(t[0] == m[0]);
    } else {
        assert(m =~= Seq::<char>::empty());
        assert(t =~= seq!['}']);
    }
    assert(strip_left(t, '{') == t);
    assert(strip_left(out, '{') == strip_left(out.skip(1), '{'));
    assert(t.drop_last() =~= m);
    assert(strip_right(t, '}') == strip_right(t.drop_last(), '}'));
    assert(strip_right(m, '}') == m);
}

/// The first place of a character.
proof fn lemma_char_at(a: Seq<char>, ch: char, b: Seq<char>)
    requires
        forall|i: int| 0 <= i < a.len() ==> #[trigger] a[i] != ch,
    ensures
        find(a + seq![ch] + b, seq![ch], 0) == Some(a.len() as int),
{
    let s = a + seq![ch] + b;
    lemma_find(s, seq![ch], 0);
    let n = a.len() as int;
    assert(s.subrange(n, n + 1) =~= seq![ch]);
    assert(occurs_at(s, seq![ch], n));
    let i = find(s, seq![ch], 0)->0;
    if i < n {
        assert(s.subrange(i, i + 1)[0] == ch);
        assert(a[i] == s[i]);
    }
}

proof fn lemma_char_nowhere(a: Seq<char>, ch: char)
    requires
        forall|i: int| 0 <= i < a.len() ==> #[trigger] a[i] != ch,
    ensures
        find(a, seq![ch], 0) is None,
{
    lemma_find(a, seq![ch], 0);
    match find(a, seq![ch], 0) {
        Some(i) => {
            assert(a.subrange(i, i + 1)[0] == ch);
            assert(a[i] == ch);
        },
        None => {},
    }
}

proof fn lemma_strip_none(s: Seq<char>)
    requires
        unquoted(s),
    ensures
        strip_right(strip_left(s, '"'), '"') == s,
{
    if s.len() > 0 {
        assert(s[0] != '"');
        assert(s[s.len() - 1] != '"');
    }
}

/// How members are taken apart: at the first comma, if more follow, and at the first colon.
pub proof fn lemma_member(o: Seq<FieldV>, k: int)
    requires
        flat_fields(o),
        0 <= k < o.len(),
    ensures
        ({
            let body = members(o, false, k);
            let pair = member_text(o[k], false);
            &&& if k + 1 < o.len() {
                &&& find(body, ","@, 0) == Some(pair.len() as int)
                &&& body.take(pair.len() as int) == pair
                &&& body.skip(pair.len() as int + 1) == members(o, false, k + 1)
            } else {
                find(body, ","@, 0) is None && body == pair
            }
            &&& find(pair, ":"@, 0) == Some(o[k].key.len() as int)
            &&& strip_right(strip_left(trim(pair.take(o[k].key.len() as int)), '"'), '"')
                == o[k].key
            &&& trim(pair.skip(o[k].key.len() as int + 1)) == value_text(o[k].value, false)
        }),
{
    reveal_strlit(",");
    reveal_strlit(":");
    assert(","@ =~= seq![','] && ":"@ =~= seq![':']);
    let f = o[k];
    let body = members(o, false, k);
    let pair = member_text(f, false);
    let t = value_text(f.value, false);
    lemma_value_ends(f.value);
    assert forall|i: int| 0 <= i < f.key.len() implies key_char(#[trigger] f.key[i]) by {
        assert(key_char(o[k].key[i]));
    }
    assert forall|i: int| 0 <= i < pair.len() implies #[trigger] pair[i] != ',' by {
        if i < f.key.len() {
            assert(pair[i] == f.key[i]);
        } else if i > f.key.len() {
            assert(pair[i] == t[i - f.key.len() - 1]);
        }
    }
    if k + 1 < o.len() {
        let rest = members(o, false, k + 1);
        assert(body =~= pair + seq![','] + rest);
        lemma_char_at(pair, ',', rest);
        assert(body.take(pair.len() as int) =~= pair);
        assert(body.skip(pair.len() as int + 1) =~= rest);
    } else {
        assert(members(o, false, k + 1) =~= Seq::<char>::empty());
        assert(body =~= pair);
        lemma_char_nowhere(pair, ',');
    }
    assert(pair =~= f.key + seq![':'] + t);
    lemma_char_at(f.key, ':', t);
    assert(pair.take(f.key.len() as int) =~= f.key);
    assert(pair.skip(f.key.len() as int + 1) =~= t);
    lemma_trim_none(t);
    if f.key.len() > 0 {
        assert(key_char(f.key[0]) && key_char(f.key[f.key.len() - 1]));
        lemma_trim_none(f.key);
    } else {
        assert(trim(f.key) == f.key);
    }
    lemma_strip_none(f.key);
}

/// A member with a key of its own comes last.
pub proof fn lemma_new_field(fields: Seq<FieldV>, key: Seq<char>, value: JsonV)
    requires
        forall|i: int| 0 <= i < fields.len() ==> (#[trigger] fields[i]).key != key,
    ensures
        with_field(fields, key, value) == fields.push(FieldV { key, value }),
    decreases fields.len(),
{
    if fields.len() == 0 {
        assert(seq![FieldV { key, value }] =~= fields.push(FieldV { key, value }));
    } else {
        let rest = fields.skip(1);
        assert forall|i: int| 0 <= i < rest.len() implies (#[trigger] rest[i]).key != key by {
            assert(rest[i] == fields[i + 1]);
        }
        lemma_new_field(rest, key, value);
        assert(seq![fields[0]] + rest.push(FieldV { key, value }) =~= fields.push(
            FieldV { key, value },
        ));
    }
}

} // verus!
