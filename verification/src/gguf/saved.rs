//! Files as they are written, and that reading gives back what was written.

use vstd::prelude::*;
use vstd::string::*;

use crate::gguf::file::{
    aligned, alignment, alignment_key, dims_at, entries_at, head_of, le, list_at, span, tensor_at,
    tensors_at, text_at, value_at, word, FileError, HeadV, MetaV, TensorV,
};

verus! {

/// A value of the metadata with the type that it is written as.
pub ghost enum Saved {
    U8(u8),
    I8(i8),
    U16(u16),
    I16(i16),
    U32(u32),
    I32(i32),
    Single(u32),
    Flag(bool),
    Text(Seq<u8>),
    /// Values of one type, which the number stands for.
    List(u32, Seq<Saved>),
    U64(u64),
    I64(i64),
    Double(u64),
}

/// The number of the type of a value.
pub open spec fn kind_of(v: Saved) -> u32 {
    match v {
        Saved::U8(_) => 0,
        Saved::I8(_) => 1,
        Saved::U16(_) => 2,
        Saved::I16(_) => 3,
        Saved::U32(_) => 4,
        Saved::I32(_) => 5,
        Saved::Single(_) => 6,
        Saved::Flag(_) => 7,
        Saved::Text(_) => 8,
        Saved::List(..) => 9,
        Saved::U64(_) => 10,
        Saved::I64(_) => 11,
        Saved::Double(_) => 12,
    }
}

/// Whether the items of all lists have the type of their list, and lengths are machine integers.
pub open spec fn savable(v: Saved) -> bool
    decreases v,
{
    match v {
        Saved::Text(t) => t.len() <= u64::MAX,
        Saved::List(k, items) => items.len() <= u64::MAX && forall|i: int|
            #![trigger items[i]]
            0 <= i < items.len() ==> kind_of(items[i]) == k && savable(items[i]),
        _ => true,
    }
}

/// What a value says, whatever it is written as.
pub open spec fn said(v: Saved) -> MetaV
    decreases v,
{
    match v {
        Saved::U8(u) => MetaV::Uint(u as nat),
        Saved::U16(u) => MetaV::Uint(u as nat),
        Saved::U32(u) => MetaV::Uint(u as nat),
        Saved::U64(u) => MetaV::Uint(u as nat),
        Saved::I8(i) => MetaV::Int(i as int),
        Saved::I16(i) => MetaV::Int(i as int),
        Saved::I32(i) => MetaV::Int(i as int),
        Saved::I64(i) => MetaV::Int(i as int),
        Saved::Single(b) => MetaV::Single(b as nat),
        Saved::Double(b) => MetaV::Double(b as nat),
        Saved::Flag(b) => MetaV::Flag(b),
        Saved::Text(t) => MetaV::Text(t),
        Saved::List(_, items) => MetaV::List(
            Seq::new(
                items.len(),
                |i: int| if 0 <= i < items.len() { said(items[i]) } else { arbitrary() },
            ),
        ),
    }
}

/// A number in `n` bytes, the lowest first.
pub open spec fn number_bytes(u: nat, n: nat) -> Seq<u8>
    decreases n,
{
    if n == 0 {
        Seq::empty()
    } else {
        seq![(u % 256) as u8] + number_bytes(u / 256, (n - 1) as nat)
    }
}

/// A number with a sign in `n` bytes: a negative one counts down from the top.
pub open spec fn signed_bytes(i: int, n: nat) -> Seq<u8> {
    number_bytes(
        (if i < 0 {
            i + span(n)
        } else {
            i
        }) as nat,
        n,
    )
}

/// A text behind its length.
pub open spec fn text_bytes(t: Seq<u8>) -> Seq<u8> {
    number_bytes(t.len(), 8) + t
}

/// A value as it is written.
pub open spec fn value_bytes(v: Saved) -> Seq<u8>
    decreases v, 0nat,
{
    match v {
        Saved::U8(u) => number_bytes(u as nat, 1),
        Saved::U16(u) => number_bytes(u as nat, 2),
        Saved::U32(u) => number_bytes(u as nat, 4),
        Saved::U64(u) => number_bytes(u as nat, 8),
        Saved::I8(i) => signed_bytes(i as int, 1),
        Saved::I16(i) => signed_bytes(i as int, 2),
        Saved::I32(i) => signed_bytes(i as int, 4),
        Saved::I64(i) => signed_bytes(i as int, 8),
        Saved::Single(b) => number_bytes(b as nat, 4),
        Saved::Double(b) => number_bytes(b as nat, 8),
        Saved::Flag(b) => number_bytes(
            if b {
                1
            } else {
                0
            },
            1,
        ),
        Saved::Text(t) => text_bytes(t),
        Saved::List(k, items) => number_bytes(k as nat, 4) + number_bytes(items.len(), 8)
            + items_bytes(items, items.len()),
    }
}

/// The first `n` items of a list, one behind the other.
pub open spec fn items_bytes(items: Seq<Saved>, n: nat) -> Seq<u8>
    decreases items, n,
{
    if n == 0 || n > items.len() {
        Seq::empty()
    } else {
        items_bytes(items, (n - 1) as nat) + value_bytes(items[n - 1])
    }
}

/// An entry of the metadata: its key, the type and the value.
pub open spec fn entry_bytes(key: Seq<u8>, v: Saved) -> Seq<u8> {
    text_bytes(key) + number_bytes(kind_of(v) as nat, 4) + value_bytes(v)
}

/// The first `n` entries of the metadata, one behind the other.
pub open spec fn entries_bytes(l: Seq<(Seq<u8>, Saved)>, n: nat) -> Seq<u8>
    decreases n,
{
    if n == 0 {
        Seq::empty()
    } else {
        entries_bytes(l, (n - 1) as nat) + entry_bytes(l[n - 1].0, l[n - 1].1)
    }
}

/// The first `n` dimensions of a tensor, one behind the other.
pub open spec fn dims_bytes(d: Seq<nat>, n: nat) -> Seq<u8>
    decreases n,
{
    if n == 0 {
        Seq::empty()
    } else {
        dims_bytes(d, (n - 1) as nat) + number_bytes(d[n - 1], 8)
    }
}

/// A tensor in the table: its name, its dimensions behind their number, its type and its place.
pub open spec fn tensor_bytes(t: TensorV) -> Seq<u8> {
    text_bytes(t.name) + number_bytes(t.dims.len(), 4) + dims_bytes(t.dims, t.dims.len())
        + number_bytes(t.kind, 4) + number_bytes(t.offset, 8)
}

/// The first `n` tensors of the table, one behind the other.
pub open spec fn table_bytes(l: Seq<TensorV>, n: nat) -> Seq<u8>
    decreases n,
{
    if n == 0 {
        Seq::empty()
    } else {
        table_bytes(l, (n - 1) as nat) + tensor_bytes(l[n - 1])
    }
}

/// Whether the numbers of a tensor fit in the bytes that they are written in.
pub open spec fn tensor_fits(t: TensorV) -> bool {
    &&& t.name.len() <= u64::MAX
    &&& t.dims.len() <= u32::MAX
    &&& forall|i: int| 0 <= i < t.dims.len() ==> #[trigger] t.dims[i] <= u64::MAX
    &&& t.kind <= u32::MAX
    &&& t.offset <= u64::MAX
}

/// Everything in front of the data: the mark, the version, how many tensors and entries there are,
/// the entries and the tensors.
pub open spec fn head_bytes(
    version: u32,
    meta: Seq<(Seq<u8>, Saved)>,
    tensors: Seq<TensorV>,
) -> Seq<u8> {
    seq!['G' as u8, 'G' as u8, 'U' as u8, 'F' as u8] + number_bytes(version as nat, 4)
        + number_bytes(tensors.len(), 8) + number_bytes(meta.len(), 8) + entries_bytes(
        meta,
        meta.len(),
    ) + table_bytes(tensors, tensors.len())
}

/// The entries with what their values say.
pub open spec fn entries_said(l: Seq<(Seq<u8>, Saved)>) -> Seq<(Seq<u8>, MetaV)> {
    Seq::new(l.len(), |i: int| (l[i].0, said(l[i].1)))
}

/// Whether these bytes stand in a file at a place.
pub open spec fn stands(s: Seq<u8>, at: int, b: Seq<u8>) -> bool {
    &&& 0 <= at
    &&& at + b.len() <= s.len()
    &&& forall|i: int| 0 <= i < b.len() ==> s[at + i] == #[trigger] b[i]
}

proof fn lemma_stands_apart(s: Seq<u8>, at: int, a: Seq<u8>, b: Seq<u8>)
    requires
        stands(s, at, a + b),
    ensures
        stands(s, at, a),
        stands(s, at + a.len(), b),
{
    assert forall|i: int| 0 <= i < a.len() implies s[at + i] == #[trigger] a[i] by {
        assert((a + b)[i] == a[i]);
    }
    assert forall|i: int| 0 <= i < b.len() implies s[at + a.len() + i] == #[trigger] b[i] by {
        assert((a + b)[a.len() + i] == b[i]);
    }
}

proof fn lemma_spans()
    ensures
        span(1) == 0x100,
        span(2) == 0x1_0000,
        span(4) == 0x1_0000_0000,
        span(8) == 0x1_0000_0000_0000_0000,
{
    reveal_with_fuel(span, 9);
}

proof fn lemma_number(u: nat, n: nat)
    requires
        u < span(n),
    ensures
        number_bytes(u, n).len() == n,
        le(number_bytes(u, n)) == u,
    decreases n,
{
    if n > 0 {
        lemma_number(u / 256, (n - 1) as nat);
        let b = number_bytes(u, n);
        assert(b.skip(1) =~= number_bytes(u / 256, (n - 1) as nat));
        assert(b[0] == (u % 256) as u8);
    }
}

proof fn lemma_word(s: Seq<u8>, at: int, u: nat, n: nat)
    requires
        u < span(n),
        stands(s, at, number_bytes(u, n)),
    ensures
        word(s, at, n as int) == Some(u),
        number_bytes(u, n).len() == n,
{
    lemma_number(u, n);
    assert(s.subrange(at, at + n) =~= number_bytes(u, n));
}

proof fn lemma_text(s: Seq<u8>, at: int, t: Seq<u8>)
    requires
        t.len() <= u64::MAX,
        stands(s, at, text_bytes(t)),
    ensures
        text_at(s, at) == Ok::<(Seq<u8>, int), FileError>((t, at + text_bytes(t).len())),
        text_bytes(t).len() == 8 + t.len(),
{
    lemma_spans();
    lemma_number(t.len(), 8);
    lemma_stands_apart(s, at, number_bytes(t.len(), 8), t);
    lemma_word(s, at, t.len(), 8);
    assert(s.subrange(at + 8, at + 8 + t.len()) =~= t);
}

proof fn lemma_items_grow(s: Seq<u8>, at: int, items: Seq<Saved>, i: nat, n: nat)
    requires
        i <= n <= items.len(),
        stands(s, at, items_bytes(items, n)),
    ensures
        stands(s, at, items_bytes(items, i)),
    decreases n,
{
    if i < n {
        lemma_stands_apart(s, at, items_bytes(items, (n - 1) as nat), value_bytes(items[n - 1]));
        lemma_items_grow(s, at, items, i, (n - 1) as nat);
    }
}

/// A value that stands in a file is read as what it says.
proof fn lemma_value(s: Seq<u8>, at: int, v: Saved)
    requires
        savable(v),
        stands(s, at, value_bytes(v)),
    ensures
        value_at(s, at, kind_of(v) as nat) == Ok::<(MetaV, int), FileError>(
            (said(v), at + value_bytes(v).len()),
        ),
        value_bytes(v).len() > 0,
    decreases v, 0nat,
{
    lemma_spans();
    match v {
        Saved::U8(u) => lemma_word(s, at, u as nat, 1),
        Saved::U16(u) => lemma_word(s, at, u as nat, 2),
        Saved::U32(u) => lemma_word(s, at, u as nat, 4),
        Saved::U64(u) => lemma_word(s, at, u as nat, 8),
        Saved::I8(i) => lemma_signed(s, at, i as int, 1),
        Saved::I16(i) => lemma_signed(s, at, i as int, 2),
        Saved::I32(i) => lemma_signed(s, at, i as int, 4),
        Saved::I64(i) => lemma_signed(s, at, i as int, 8),
        Saved::Single(b) => lemma_word(s, at, b as nat, 4),
        Saved::Double(b) => lemma_word(s, at, b as nat, 8),
        Saved::Flag(b) => lemma_word(
            s,
            at,
            if b {
                1
            } else {
                0
            },
            1,
        ),
        Saved::Text(t) => lemma_text(s, at, t),
        Saved::List(k, items) => {
            let a = number_bytes(k as nat, 4);
            let b = number_bytes(items.len(), 8);
            let c = items_bytes(items, items.len());
            lemma_number(k as nat, 4);
            lemma_number(items.len(), 8);
            lemma_stands_apart(s, at, a + b, c);
            lemma_stands_apart(s, at, a, b);
            lemma_word(s, at, k as nat, 4);
            lemma_word(s, at + 4, items.len(), 8);
            lemma_items(s, at + 12, k, items, 0);
            assert(items_bytes(items, 0).len() == 0);
            let read = list_at(s, at + 12, k as nat, items.len());
            assert(read is Ok);
            assert(said(v)->List_0 =~= read->Ok_0.0);
        },
    }
}

proof fn lemma_signed(s: Seq<u8>, at: int, i: int, n: nat)
    requires
        n > 0,
        -span(n) <= 2 * i < span(n),
        stands(s, at, signed_bytes(i, n)),
    ensures
        word(s, at, n as int) is Some,
        crate::gguf::file::signed(word(s, at, n as int)->0, n) == i,
        signed_bytes(i, n).len() == n,
{
    let u = (if i < 0 {
        i + span(n)
    } else {
        i
    }) as nat;
    lemma_word(s, at, u, n);
}

/// The items of a list from the `i`-th on are read one after the other.
proof fn lemma_items(s: Seq<u8>, at: int, k: u32, items: Seq<Saved>, i: nat)
    requires
        i <= items.len() <= u64::MAX,
        forall|j: int|
            #![trigger items[j]]
            0 <= j < items.len() ==> kind_of(items[j]) == k && savable(items[j]),
        stands(s, at, items_bytes(items, items.len())),
    ensures
        list_at(s, at + items_bytes(items, i).len(), k as nat, (items.len() - i) as nat) == Ok::<
            (Seq<MetaV>, int),
            FileError,
        >(
            (
                Seq::new(
                    items.len(),
                    |j: int| if 0 <= j < items.len() { said(items[j]) } else { arbitrary() },
                ).skip(i as int),
                at + items_bytes(items, items.len()).len(),
            ),
        ),
    decreases items, items.len() - i,
{
    let all = Seq::new(
        items.len(),
        |j: int| if 0 <= j < items.len() { said(items[j]) } else { arbitrary() },
    );
    if i < items.len() {
        let v = items[i as int];
        let here = at + items_bytes(items, i).len();
        lemma_items_grow(s, at, items, i + 1, items.len());
        assert(items_bytes(items, i + 1) == items_bytes(items, i) + value_bytes(v));
        lemma_stands_apart(s, at, items_bytes(items, i), value_bytes(v));
        lemma_value(s, here, v);
        lemma_items(s, at, k, items, i + 1);
        assert(seq![said(v)] + all.skip(i as int + 1) =~= all.skip(i as int));
    } else {
        assert(all.skip(i as int) =~= Seq::<MetaV>::empty());
    }
}

proof fn lemma_entries_grow(s: Seq<u8>, at: int, l: Seq<(Seq<u8>, Saved)>, i: nat, n: nat)
    requires
        i <= n <= l.len(),
        stands(s, at, entries_bytes(l, n)),
    ensures
        stands(s, at, entries_bytes(l, i)),
    decreases n,
{
    if i < n {
        lemma_stands_apart(
            s,
            at,
            entries_bytes(l, (n - 1) as nat),
            entry_bytes(l[n - 1].0, l[n - 1].1),
        );
        lemma_entries_grow(s, at, l, i, (n - 1) as nat);
    }
}

/// The entries of the metadata from the `i`-th on are read one after the other.
proof fn lemma_entries(s: Seq<u8>, at: int, l: Seq<(Seq<u8>, Saved)>, i: nat)
    requires
        i <= l.len(),
        forall|j: int|
            #![trigger l[j]]
            0 <= j < l.len() ==> l[j].0.len() <= u64::MAX && savable(l[j].1),
        stands(s, at, entries_bytes(l, l.len())),
    ensures
        entries_at(s, at + entries_bytes(l, i).len(), (l.len() - i) as nat) == Ok::<
            (Seq<(Seq<u8>, MetaV)>, int),
            FileError,
        >((entries_said(l).skip(i as int), at + entries_bytes(l, l.len()).len())),
    decreases l.len() - i,
{
    let all = entries_said(l);
    if i < l.len() {
        let (key, v) = l[i as int];
        let here = at + entries_bytes(l, i).len();
        lemma_entries_grow(s, at, l, i + 1, l.len());
        assert(entries_bytes(l, i + 1) == entries_bytes(l, i) + entry_bytes(key, v));
        lemma_stands_apart(s, at, entries_bytes(l, i), entry_bytes(key, v));
        let kind = number_bytes(kind_of(v) as nat, 4);
        lemma_spans();
        lemma_number(kind_of(v) as nat, 4);
        lemma_stands_apart(s, here, text_bytes(key) + kind, value_bytes(v));
        lemma_stands_apart(s, here, text_bytes(key), kind);
        lemma_text(s, here, key);
        lemma_word(s, here + text_bytes(key).len(), kind_of(v) as nat, 4);
        lemma_value(s, here + text_bytes(key).len() + 4, v);
        lemma_entries(s, at, l, i + 1);
        assert(seq![(key, said(v))] + all.skip(i as int + 1) =~= all.skip(i as int));
    } else {
        assert(all.skip(i as int) =~= Seq::<(Seq<u8>, MetaV)>::empty());
    }
}

proof fn lemma_dims(s: Seq<u8>, at: int, d: Seq<nat>, n: nat)
    requires
        n <= d.len(),
        forall|i: int| 0 <= i < d.len() ==> #[trigger] d[i] <= u64::MAX,
        stands(s, at, dims_bytes(d, n)),
    ensures
        dims_at(s, at, n) == Some(d.take(n as int)),
        dims_bytes(d, n).len() == 8 * n,
    decreases n,
{
    lemma_spans();
    if n > 0 {
        lemma_stands_apart(s, at, dims_bytes(d, (n - 1) as nat), number_bytes(d[n - 1], 8));
        lemma_dims(s, at, d, (n - 1) as nat);
        lemma_word(s, at + 8 * (n - 1), d[n - 1], 8);
        assert(d.take(n - 1).push(d[n - 1]) =~= d.take(n as int));
    } else {
        assert(d.take(0) =~= Seq::<nat>::empty());
    }
}

proof fn lemma_tensor(s: Seq<u8>, at: int, t: TensorV)
    requires
        tensor_fits(t),
        stands(s, at, tensor_bytes(t)),
    ensures
        tensor_at(s, at) == Ok::<(TensorV, int), FileError>((t, at + tensor_bytes(t).len())),
{
    lemma_spans();
    let name = text_bytes(t.name);
    let rank = number_bytes(t.dims.len(), 4);
    let dims = dims_bytes(t.dims, t.dims.len());
    let kind = number_bytes(t.kind, 4);
    let offset = number_bytes(t.offset, 8);
    lemma_number(t.dims.len(), 4);
    lemma_number(t.kind, 4);
    lemma_number(t.offset, 8);
    lemma_stands_apart(s, at, name + rank + dims + kind, offset);
    lemma_stands_apart(s, at, name + rank + dims, kind);
    lemma_stands_apart(s, at, name + rank, dims);
    lemma_stands_apart(s, at, name, rank);
    lemma_text(s, at, t.name);
    let p = at + name.len();
    lemma_word(s, p, t.dims.len(), 4);
    lemma_dims(s, p + 4, t.dims, t.dims.len());
    assert(t.dims.take(t.dims.len() as int) =~= t.dims);
    let q = p + 4 + 8 * t.dims.len();
    lemma_word(s, q, t.kind, 4);
    lemma_word(s, q + 4, t.offset, 8);
}

proof fn lemma_table_grows(s: Seq<u8>, at: int, l: Seq<TensorV>, i: nat, n: nat)
    requires
        i <= n <= l.len(),
        stands(s, at, table_bytes(l, n)),
    ensures
        stands(s, at, table_bytes(l, i)),
    decreases n,
{
    if i < n {
        lemma_stands_apart(s, at, table_bytes(l, (n - 1) as nat), tensor_bytes(l[n - 1]));
        lemma_table_grows(s, at, l, i, (n - 1) as nat);
    }
}

/// The tensors of the table from the `i`-th on are read one after the other.
proof fn lemma_table(s: Seq<u8>, at: int, l: Seq<TensorV>, i: nat)
    requires
        i <= l.len(),
        forall|j: int| 0 <= j < l.len() ==> tensor_fits(#[trigger] l[j]),
        stands(s, at, table_bytes(l, l.len())),
    ensures
        tensors_at(s, at + table_bytes(l, i).len(), (l.len() - i) as nat) == Ok::<
            (Seq<TensorV>, int),
            FileError,
        >((l.skip(i as int), at + table_bytes(l, l.len()).len())),
    decreases l.len() - i,
{
    if i < l.len() {
        let t = l[i as int];
        lemma_table_grows(s, at, l, i + 1, l.len());
        assert(table_bytes(l, i + 1) == table_bytes(l, i) + tensor_bytes(t));
        lemma_stands_apart(s, at, table_bytes(l, i), tensor_bytes(t));
        lemma_tensor(s, at + table_bytes(l, i).len(), t);
        lemma_table(s, at, l, i + 1);
        assert(seq![t] + l.skip(i as int + 1) =~= l.skip(i as int));
    } else {
        assert(l.skip(i as int) =~= Seq::<TensorV>::empty());
    }
}

/// What was written in front of the data of a file is read again, whatever data follows: every
/// entry under its key with what its value says, every tensor, and the data at the next multiple
/// of the alignment.
pub proof fn lemma_file_is_read_again(
    version: u32,
    meta: Seq<(Seq<u8>, Saved)>,
    tensors: Seq<TensorV>,
    data: Seq<u8>,
)
    requires
        meta.len() <= u64::MAX,
        tensors.len() <= u64::MAX,
        forall|j: int|
            #![trigger meta[j]]
            0 <= j < meta.len() ==> meta[j].0.len() <= u64::MAX && savable(meta[j].1),
        forall|j: int| 0 <= j < tensors.len() ==> tensor_fits(#[trigger] tensors[j]),
        aligned(
            head_bytes(version, meta, tensors).len(),
            alignment(entries_said(meta)),
        ) <= usize::MAX,
    ensures
        head_of(head_bytes(version, meta, tensors) + data) == Ok::<HeadV, FileError>(
            HeadV {
                meta: entries_said(meta),
                tensors,
                start: aligned(
                    head_bytes(version, meta, tensors).len(),
                    alignment(entries_said(meta)),
                ),
            },
        ),
{
    let h = head_bytes(version, meta, tensors);
    let s = h + data;
    lemma_spans();
    let mark = seq!['G' as u8, 'G' as u8, 'U' as u8, 'F' as u8];
    let a = number_bytes(version as nat, 4);
    let b = number_bytes(tensors.len(), 8);
    let c = number_bytes(meta.len(), 8);
    let d = entries_bytes(meta, meta.len());
    let e = table_bytes(tensors, tensors.len());
    lemma_number(version as nat, 4);
    lemma_number(tensors.len(), 8);
    lemma_number(meta.len(), 8);
    assert(stands(s, 0, h)) by {
        assert forall|i: int| 0 <= i < h.len() implies s[0 + i] == #[trigger] h[i] by {}
    }
    lemma_stands_apart(s, 0, mark + a + b + c + d, e);
    lemma_stands_apart(s, 0, mark + a + b + c, d);
    lemma_stands_apart(s, 0, mark + a + b, c);
    lemma_stands_apart(s, 0, mark + a, b);
    lemma_stands_apart(s, 0, mark, a);
    assert(s.take(4) =~= seq![71u8, 71u8, 85u8, 70u8]) by {
        assert(mark[0] == 71u8 && mark[1] == 71u8 && mark[2] == 85u8 && mark[3] == 70u8);
        assert(forall|i: int| 0 <= i < 4 ==> s[0 + i] == #[trigger] mark[i]);
    }
    lemma_word(s, 4, version as nat, 4);
    lemma_word(s, 8, tensors.len(), 8);
    lemma_word(s, 16, meta.len(), 8);
    lemma_entries(s, 24, meta, 0);
    assert(entries_bytes(meta, 0).len() == 0);
    assert(entries_said(meta).skip(0) =~= entries_said(meta));
    lemma_table(s, 24 + d.len() as int, tensors, 0);
    assert(table_bytes(tensors, 0).len() == 0);
    assert(tensors.skip(0) =~= tensors);
}

/// The data begins at a multiple of the alignment, behind the table, with less than that between.
pub proof fn lemma_aligned(at: nat, to: nat)
    requires
        to > 0,
    ensures
        aligned(at, to) % to == 0,
        at <= aligned(at, to) < at + to,
{
    let (x, y) = (at as int, to as int);
    assert((x - x % y) % y == 0 && (x - x % y + y) % y == 0) by (nonlinear_arith)
        requires
            y > 0,
    {
        vstd::arithmetic::div_mod::lemma_fundamental_div_mod(x, y);
        vstd::arithmetic::div_mod::lemma_mod_multiples_basic(x / y, y);
        vstd::arithmetic::div_mod::lemma_mod_multiples_basic(x / y + 1, y);
    }
}

/// The alignment is the number of the last entry that is called so, and thirty-two where no entry
/// is.
pub proof fn lemma_alignment(meta: Seq<(Seq<u8>, MetaV)>, i: int, a: nat)
    ensures
        0 <= i < meta.len() && meta[i].0 == alignment_key() && meta[i].1 == MetaV::Uint(a) && a > 0
            && (forall|j: int| i < j < meta.len() ==> (#[trigger] meta[j]).0 != alignment_key())
            ==> alignment(meta) == a,
        (forall|j: int| 0 <= j < meta.len() ==> (#[trigger] meta[j]).0 != alignment_key())
            ==> alignment(meta) == 32,
    decreases meta.len(),
{
    if meta.len() > 0 {
        lemma_alignment(meta.drop_last(), i, a);
    }
}

/// The entry for the alignment is called by its name, letter for letter.
pub proof fn lemma_alignment_key()
    ensures
        alignment_key().len() == "general.alignment"@.len(),
        forall|i: int|
            0 <= i < alignment_key().len() ==> #[trigger] alignment_key()[i] as char
                == "general.alignment"@[i],
{
    reveal_strlit("general.alignment");
}

} // verus!
