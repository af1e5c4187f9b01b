//! What the declaration of a tool says of its parameters.

use vstd::prelude::*;
use vstd::string::*;

use crate::server::chat::{
    declaration, members_of, property_text, property_texts, required_texts, schema_text, uppercase,
    ToolV,
};
use crate::server::conversation::{in_order, lemma_in_longer, lemma_one_more, tool_part};
use crate::server::json::{field_of, FieldV, JsonV};
use crate::text::{join, occurs_at};

verus! {

/// A text in the quotes of the template.
pub open spec fn in_quotes(s: Seq<char>) -> Seq<char> {
    "<|\"|>"@ + s + "<|\"|>"@
}

/// What has to be said of a property: its name, its description and, in upper case, its type.
pub open spec fn property_parts(f: FieldV) -> Seq<Seq<char>> {
    let m = members_of(f.value);
    seq![f.key + ":{"@] + (match field_of(m, "description"@) {
        Some(JsonV::Str(s)) => seq!["description:"@ + in_quotes(s)],
        _ => Seq::empty(),
    }) + (match field_of(m, "type"@) {
        Some(JsonV::Str(s)) => seq!["type:"@ + in_quotes(uppercase(s))],
        _ => Seq::empty(),
    })
}

/// What has to be said of properties, one after the other.
pub open spec fn properties_parts(props: Seq<FieldV>) -> Seq<Seq<char>>
    decreases props.len(),
{
    if props.len() == 0 {
        Seq::empty()
    } else {
        properties_parts(props.drop_last()) + property_parts(props.last())
    }
}

/// The names of required properties, quoted.
pub open spec fn required_parts(items: Seq<JsonV>) -> Seq<Seq<char>> {
    items.filter(|j: JsonV| j is Str).map_values(|j: JsonV| in_quotes(j->Str_0))
}

/// What has to be said of the parameters of a tool: the properties, which are required, and the
/// type.
pub open spec fn schema_parts(fields: Seq<FieldV>) -> Seq<Seq<char>> {
    (match field_of(fields, "properties"@) {
        Some(JsonV::Object(props)) => properties_parts(props),
        _ => Seq::empty(),
    }) + (match field_of(fields, "required"@) {
        Some(JsonV::Array(items)) => required_parts(items),
        _ => Seq::empty(),
    }) + (match field_of(fields, "type"@) {
        Some(JsonV::Str(t)) => seq!["type:"@ + in_quotes(uppercase(t))],
        _ => Seq::empty(),
    })
}

/// What stands in order in one text and in another stands in order in both together.
proof fn lemma_in_both(p: Seq<Seq<char>>, s: Seq<char>, q: Seq<Seq<char>>, t: Seq<char>)
    requires
        in_order(p, s),
        in_order(q, t),
    ensures
        in_order(p + q, s + t),
    decreases q.len(),
{
    if q.len() == 0 {
        assert(p + q =~= p);
        lemma_in_longer(p, s, t);
    } else {
        let x = q.last();
        let i = choose|i: int| #[trigger] occurs_at(t, x, i) && in_order(q.drop_last(), t.take(i));
        lemma_in_both(p, s, q.drop_last(), t.take(i));
        let all = p + q;
        let n = s.len() + i;
        assert(all.drop_last() =~= p + q.drop_last());
        assert(all.last() == x);
        assert((s + t).take(n) =~= s + t.take(i));
        assert((s + t).subrange(n, n + x.len()) =~= t.subrange(i, i + x.len()));
        assert(occurs_at(s + t, all.last(), n));
    }
}

/// A text in front changes nothing.
proof fn lemma_behind(p: Seq<Seq<char>>, s: Seq<char>, t: Seq<char>)
    requires
        in_order(p, t),
    ensures
        in_order(p, s + t),
{
    let none = Seq::<Seq<char>>::empty();
    lemma_in_both(none, s, p, t);
    assert(none + p =~= p);
}

proof fn lemma_alone(p: Seq<char>)
    ensures
        in_order(seq![p], p),
{
    let none = Seq::<Seq<char>>::empty();
    let e = Seq::<char>::empty();
    lemma_one_more(none, e, p);
    assert(none.push(p) =~= seq![p]);
    assert(e + p =~= p);
}

/// Where parts stand in order in every one of some texts, all of them do when the texts are joined.
proof fn lemma_in_joined(
    flat: spec_fn(int) -> Seq<Seq<char>>,
    one: spec_fn(int) -> Seq<Seq<char>>,
    texts: Seq<Seq<char>>,
    sep: Seq<char>,
    n: nat,
)
    requires
        n <= texts.len(),
        flat(0) == Seq::<Seq<char>>::empty(),
        forall|i: int| 0 <= i < n ==> #[trigger] flat(i + 1) == flat(i) + one(i),
        forall|i: int| 0 <= i < n ==> in_order(#[trigger] one(i), texts[i]),
    ensures
        in_order(flat(n as int), join(texts.take(n as int), sep)),
    decreases n,
{
    let t = texts.take(n as int);
    if n > 0 {
        let m = (n - 1) as nat;
        lemma_in_joined(flat, one, texts, sep, m);
        let before = texts.take(m as int);
        assert(t.drop_last() =~= before);
        assert(t.last() == texts[m as int]);
        assert(flat(m as int + 1) == flat(m as int) + one(m as int));
        assert(in_order(one(m as int), texts[m as int]));
        if n == 1 {
            assert(flat(0) + one(0) =~= one(0));
            assert(t[0] == texts[0]);
        } else {
            lemma_in_longer(flat(m as int), join(before, sep), sep);
            lemma_in_both(flat(m as int), join(before, sep) + sep, one(m as int), texts[m as int]);
        }
    }
}

proof fn lemma_property(f: FieldV)
    ensures
        in_order(property_parts(f), property_text(f)),
{
    let m = members_of(f.value);
    let head = f.key + ":{"@;
    lemma_alone(head);
    let none = Seq::<Seq<char>>::empty();
    let d = match field_of(m, "description"@) {
        Some(JsonV::Str(s)) => seq!["description:"@ + in_quotes(s)],
        _ => none,
    };
    let t = match field_of(m, "type"@) {
        Some(JsonV::Str(s)) => seq!["type:"@ + in_quotes(uppercase(s))],
        _ => none,
    };
    let all = d + t;
    crate::server::conversation::lemma_join_in_order(
        none,
        Seq::<char>::empty(),
        all,
        ","@,
    );
    assert(none + all =~= all);
    assert(Seq::<char>::empty() + join(all, ","@) =~= join(all, ","@));
    lemma_in_both(seq![head], head, all, join(all, ","@));
    lemma_in_longer(seq![head] + all, head + join(all, ","@), "}"@);
    assert(seq![head] + all =~= property_parts(f));
    if t.len() > 0 {
        assert(d.push(t[0]) =~= all);
    } else {
        assert(d =~= all);
    }
}

proof fn lemma_properties(props: Seq<FieldV>)
    ensures
        in_order(properties_parts(props), join(property_texts(props), ","@)),
{
    let texts = property_texts(props);
    let n = props.len();
    let flat = |i: int| properties_parts(props.take(i));
    let one = |i: int| property_parts(props[i]);
    assert(props.take(0) =~= Seq::<FieldV>::empty());
    assert forall|i: int| 0 <= i < n implies #[trigger] flat(i + 1) == flat(i) + one(i) by {
        assert(props.take(i + 1).drop_last() =~= props.take(i));
        assert(props.take(i + 1).last() == props[i]);
    }
    assert forall|i: int| 0 <= i < n implies in_order(#[trigger] one(i), texts[i]) by {
        lemma_property(props[i]);
    }
    lemma_in_joined(flat, one, texts, ","@, n);
    assert(props.take(n as int) =~= props);
    assert(texts.take(n as int) =~= texts);
}

proof fn lemma_required(items: Seq<JsonV>)
    ensures
        required_texts(items) == required_parts(items),
    decreases items.len(),
{
    reveal(Seq::filter);
    let keep = |j: JsonV| j is Str;
    let f = |j: JsonV| in_quotes(j->Str_0);
    if items.len() > 0 {
        lemma_required(items.drop_last());
        let before = items.drop_last().filter(keep);
        if items.last() is Str {
            assert(before.push(items.last()).map_values(f) =~= before.map_values(f).push(
                f(items.last()),
            ));
        }
    } else {
        assert(required_parts(items) =~= Seq::<Seq<char>>::empty());
    }
}

/// The parameters of a tool are declared in full: every property with its description and type,
/// the names of those that are required, and the type of the whole.
pub proof fn lemma_parameters_are_declared(fields: Seq<FieldV>)
    ensures
        in_order(schema_parts(fields), schema_text(JsonV::Object(fields))),
{
    let none = Seq::<Seq<char>>::empty();
    let e = Seq::<char>::empty();
    let sep = ","@;
    let (p1, m1) = match field_of(fields, "properties"@) {
        Some(JsonV::Object(props)) => {
            lemma_properties(props);
            let j = join(property_texts(props), ","@);
            lemma_behind(properties_parts(props), "properties:{"@, j);
            lemma_in_longer(properties_parts(props), "properties:{"@ + j, "}"@);
            (properties_parts(props), none.push("properties:{"@ + j + "}"@))
        },
        _ => (none, none),
    };
    let (p2, m2) = match field_of(fields, "required"@) {
        Some(JsonV::Array(items)) => {
            lemma_required(items);
            let r = required_parts(items);
            crate::server::conversation::lemma_join_in_order(none, "required:["@, r, ","@);
            assert(none + r =~= r);
            lemma_in_longer(r, "required:["@ + join(r, ","@), "]"@);
            (r, m1.push("required:["@ + join(r, ","@) + "]"@))
        },
        _ => (none, m1),
    };
    let (p3, m3) = match field_of(fields, "type"@) {
        Some(JsonV::Str(t)) => {
            lemma_alone("type:"@ + in_quotes(uppercase(t)));
            (
                seq!["type:"@ + in_quotes(uppercase(t))],
                m2.push("type:"@ + in_quotes(uppercase(t))),
            )
        },
        _ => (none, m2),
    };
    let parts = schema_parts(fields);
    assert(parts =~= p1 + p2 + p3);
    assert(in_order(none, e));
    assert(m1.len() > 0 ==> m1.drop_last() =~= none);
    lemma_joined_more(none, none, p1, m1);
    assert(none + p1 =~= p1);
    assert(m2.len() > m1.len() ==> m2.drop_last() =~= m1);
    lemma_joined_more(p1, m1, p2, m2);
    assert(m3.len() > m2.len() ==> m3.drop_last() =~= m2);
    lemma_joined_more(p1 + p2, m2, p3, m3);
    if m3.len() > 0 {
        lemma_behind(parts, "{"@, join(m3, sep));
        lemma_in_longer(parts, "{"@ + join(m3, sep), "}"@);
    } else {
        assert(parts =~= none);
    }
}

/// One more member: its parts come behind those of the others.
proof fn lemma_joined_more(
    p: Seq<Seq<char>>,
    m: Seq<Seq<char>>,
    q: Seq<Seq<char>>,
    n: Seq<Seq<char>>,
)
    requires
        in_order(p, join(m, ","@)),
        (n == m && q.len() == 0) || (n.len() == m.len() + 1 && n.drop_last() == m && in_order(
            q,
            n.last(),
        )),
    ensures
        in_order(p + q, join(n, ","@)),
{
    if n == m {
        assert(p + q =~= p);
    } else if m.len() == 0 {
        lemma_in_both(p, join(m, ","@), q, n.last());
        assert(join(m, ","@) + n.last() =~= n.last());
        assert(n[0] == n.last());
    } else {
        lemma_in_longer(p, join(m, ","@), ","@);
        lemma_in_both(p, join(m, ","@) + ","@, q, n.last());
    }
}

/// A declaration is the name and the description of the tool, its parameters, and nothing else.
pub proof fn lemma_declaration_is_whole(t: ToolV)
    ensures
        declaration(t) == tool_part(t) + (match t.parameters {
            Some(p) => schema_text(p),
            None => "{}"@,
        }) + "}"@ + "<tool|>"@,
{
    let rest = crate::server::conversation::lemma_declaration(t);
    let parameters = match t.parameters {
        Some(p) => schema_text(p),
        None => "{}"@,
    };
    assert(tool_part(t) + (parameters + "}"@ + "<tool|>"@) =~= tool_part(t) + parameters + "}"@
        + "<tool|>"@);
}

} // verus!
