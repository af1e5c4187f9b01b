//! Model files: the metadata and the table of tensors in front of the data, and where the data of a
//! tensor lies.

use vstd::prelude::*;

verus! {

/// Why a file cannot be read.
#[derive(Clone, Copy, Debug, PartialEq, Eq, Structural)]
pub enum FileError {
    /// It does not begin with the mark of such files.
    NotGguf,
    EndsEarly,
    /// A value of the metadata has a type that is not known.
    MetaType(u32),
    /// A tensor has a type that is not known.
    TensorType(u32),
    /// A size is no machine integer.
    TooLarge,
}

/// A value of the metadata. Texts are bytes; floating-point numbers are bit patterns.
#[derive(Debug)]
pub enum MetaValue {
    Uint(u64),
    Int(i64),
    Single(u32),
    Double(u64),
    Flag(bool),
    Text(Vec<u8>),
    List(Vec<MetaValue>),
}

/// A key of the metadata and its value.
#[derive(Debug)]
pub struct MetaEntry {
    pub key: Vec<u8>,
    pub value: MetaValue,
}

/// A tensor: its name, its dimensions, its type, and where its data begins behind the table.
#[derive(Debug)]
pub struct TensorInfo {
    pub name: Vec<u8>,
    pub dims: Vec<u64>,
    pub kind: u32,
    pub offset: u64,
}

/// What stands in front of the data, and where the data begins.
#[derive(Debug)]
pub struct FileHead {
    pub meta: Vec<MetaEntry>,
    pub tensors: Vec<TensorInfo>,
    pub start: usize,
}

/// A value of the metadata as a mathematical value.
pub ghost enum MetaV {
    Uint(nat),
    Int(int),
    Single(nat),
    Double(nat),
    Flag(bool),
    Text(Seq<u8>),
    List(Seq<MetaV>),
}

/// A tensor as a mathematical value.
pub ghost struct TensorV {
    pub name: Seq<u8>,
    pub dims: Seq<nat>,
    pub kind: nat,
    pub offset: nat,
}

/// What stands in front of the data, as a mathematical value.
pub ghost struct HeadV {
    pub meta: Seq<(Seq<u8>, MetaV)>,
    pub tensors: Seq<TensorV>,
    pub start: nat,
}

pub open spec fn meta_view(v: MetaValue) -> MetaV
    decreases v,
{
    match v {
        MetaValue::Uint(u) => MetaV::Uint(u as nat),
        MetaValue::Int(i) => MetaV::Int(i as int),
        MetaValue::Single(b) => MetaV::Single(b as nat),
        MetaValue::Double(b) => MetaV::Double(b as nat),
        MetaValue::Flag(b) => MetaV::Flag(b),
        MetaValue::Text(t) => MetaV::Text(t@),
        MetaValue::List(l) => MetaV::List(metas_view(l@)),
    }
}

pub open spec fn metas_view(l: Seq<MetaValue>) -> Seq<MetaV>
    decreases l,
{
    Seq::new(l.len(), |i: int| if 0 <= i < l.len() { meta_view(l[i]) } else { arbitrary() })
}

pub open spec fn entries_view(l: Seq<MetaEntry>) -> Seq<(Seq<u8>, MetaV)> {
    l.map_values(|e: MetaEntry| (e.key@, meta_view(e.value)))
}

impl View for TensorInfo {
    type V = TensorV;

    open spec fn view(&self) -> TensorV {
        TensorV {
            name: self.name@,
            dims: self.dims@.map_values(|d: u64| d as nat),
            kind: self.kind as nat,
            offset: self.offset as nat,
        }
    }
}

pub open spec fn tensors_view(l: Seq<TensorInfo>) -> Seq<TensorV> {
    l.map_values(|t: TensorInfo| t@)
}

impl View for FileHead {
    type V = HeadV;

    open spec fn view(&self) -> HeadV {
        HeadV {
            meta: entries_view(self.meta@),
            tensors: tensors_view(self.tensors@),
            start: self.start as nat,
        }
    }
}

/// The number that bytes stand for, the lowest first.
pub open spec fn le(s: Seq<u8>) -> nat
    decreases s.len(),
{
    if s.len() == 0 {
        0
    } else {
        s[0] as nat + 256 * le(s.skip(1))
    }
}

/// The number of numbers that `n` bytes can stand for.
pub open spec fn span(n: nat) -> nat
    decreases n,
{
    if n == 0 {
        1
    } else {
        256 * span((n - 1) as nat)
    }
}

proof fn lemma_le_below(s: Seq<u8>)
    ensures
        le(s) < span(s.len()),
    decreases s.len(),
{
    if s.len() > 0 {
        lemma_le_below(s.skip(1));
    }
}

/// The number in the `n` bytes at `at`, if they are there.
pub open spec fn word(s: Seq<u8>, at: int, n: int) -> Option<nat> {
    if 0 <= at && 0 <= n && at + n <= s.len() {
        Some(le(s.subrange(at, at + n)))
    } else {
        None
    }
}

fn read_word(data: &Vec<u8>, at: usize, n: usize) -> (r: Result<u64, FileError>)
    requires
        at <= data@.len(),
        n <= 8,
    ensures
        match word(data@, at as int, n as int) {
            Some(x) => r == Ok::<u64, FileError>(x as u64) && x < span(n as nat) && at + n
                <= data@.len(),
            None => r == Err::<u64, FileError>(FileError::EndsEarly) && at + n > data@.len(),
        },
        span(8) == 0x1_0000_0000_0000_0000,
        span(4) == 0x1_0000_0000,
        span(2) == 0x1_0000,
        span(1) == 0x100,
        data@.len() <= usize::MAX,
{
    proof {
        reveal_with_fuel(span, 10);
    }
    if n > data.len() - at {
        return Err(FileError::EndsEarly);
    }
    let ghost s = data@;
    let ghost end = at + n;
    let mut i: usize = n;
    let mut x: u64 = 0;
    assert(s.subrange(at + i, end as int) =~= Seq::<u8>::empty());
    while i > 0
        invariant
            i <= n <= 8,
            s == data@,
            end == at + n,
            end <= s.len() <= usize::MAX,
            x == le(s.subrange(at + i, end as int)),
            span(8) == 0x1_0000_0000_0000_0000,
        decreases i,
    {
        i -= 1;
        let ghost t = s.subrange(at + i, end as int);
        proof {
            assert(t.skip(1) =~= s.subrange(at + i + 1, end as int));
            lemma_le_below(t);
            lemma_span_grows(t.len(), 8);
        }
        x = x * 256 + (data[at + i] as u64);
    }
    proof {
        lemma_le_below(s.subrange(at as int, end as int));
    }
    Ok(x)
}

proof fn lemma_span_grows(a: nat, b: nat)
    requires
        a <= b,
    ensures
        span(a) <= span(b),
        span(a) >= 1,
    decreases b,
{
    if a < b {
        lemma_span_grows(a, (b - 1) as nat);
    } else if a > 0 {
        lemma_span_grows((a - 1) as nat, (b - 1) as nat);
    }
}

/// The bytes of a text at `at`, which its length stands in front of, and what follows.
pub open spec fn text_at(s: Seq<u8>, at: int) -> Result<(Seq<u8>, int), FileError> {
    match word(s, at, 8) {
        Some(n) if at + 8 + n <= s.len() => Ok((s.subrange(at + 8, at + 8 + n), at + 8 + n)),
        _ => Err(FileError::EndsEarly),
    }
}

fn read_text(data: &Vec<u8>, at: usize) -> (r: Result<(Vec<u8>, usize), FileError>)
    requires
        at <= data@.len(),
    ensures
        match r {
            Ok((t, e)) => text_at(data@, at as int) == Ok::<(Seq<u8>, int), FileError>(
                (t@, e as int),
            ) && at < e <= data@.len(),
            Err(e) => text_at(data@, at as int) == Err::<(Seq<u8>, int), FileError>(e),
        },
{
    let n: u64 = match read_word(data, at, 8) {
        Ok(n) => n,
        Err(e) => {
            return Err(e);
        },
    };
    let from: usize = at + 8;
    if n > (data.len() - from) as u64 {
        return Err(FileError::EndsEarly);
    }
    let to: usize = from + n as usize;
    let mut t: Vec<u8> = Vec::new();
    let mut i: usize = from;
    assert(t@ =~= data@.subrange(from as int, from as int));
    while i < to
        invariant
            from <= i <= to <= data@.len(),
            t@ == data@.subrange(from as int, i as int),
        decreases to - i,
    {
        t.push(data[i]);
        i += 1;
        assert(t@ =~= data@.subrange(from as int, i as int));
    }
    Ok((t, to))
}

/// How many bytes a number of a type takes; none if the type is no number.
pub open spec fn width_of(kind: nat) -> nat {
    if kind == 0 || kind == 1 || kind == 7 {
        1
    } else if kind == 2 || kind == 3 {
        2
    } else if kind == 4 || kind == 5 || kind == 6 {
        4
    } else if kind == 10 || kind == 11 || kind == 12 {
        8
    } else {
        0
    }
}

/// A number with a sign, as `n` bytes hold it.
pub open spec fn signed(u: nat, n: nat) -> int {
    if 2 * u >= span(n) {
        u - span(n)
    } else {
        u as int
    }
}

/// A number, a truth value or a bit pattern of a type.
pub open spec fn scalar_of(kind: nat, u: nat) -> MetaV {
    if kind == 6 {
        MetaV::Single(u)
    } else if kind == 12 {
        MetaV::Double(u)
    } else if kind == 7 {
        MetaV::Flag(u != 0)
    } else if kind == 1 || kind == 3 || kind == 5 || kind == 11 {
        MetaV::Int(signed(u, width_of(kind)))
    } else {
        MetaV::Uint(u)
    }
}

/// The value of a type at `at`, and what follows.
pub open spec fn value_at(s: Seq<u8>, at: int, kind: nat) -> Result<(MetaV, int), FileError>
    decreases s.len() - at, 0nat, 0nat,
{
    if kind == 8 {
        match text_at(s, at) {
            Ok((t, e)) => Ok((MetaV::Text(t), e)),
            Err(e) => Err(e),
        }
    } else if kind == 9 {
        match (word(s, at, 4), word(s, at + 4, 8)) {
            (Some(k), Some(n)) => match list_at(s, at + 12, k, n) {
                Ok((l, e)) => Ok((MetaV::List(l), e)),
                Err(e) => Err(e),
            },
            _ => Err(FileError::EndsEarly),
        }
    } else if width_of(kind) == 0 {
        Err(FileError::MetaType(kind as u32))
    } else {
        match word(s, at, width_of(kind) as int) {
            Some(u) => Ok((scalar_of(kind, u), at + width_of(kind))),
            None => Err(FileError::EndsEarly),
        }
    }
}

/// The `n` values of a type from `at` on, and what follows.
pub open spec fn list_at(s: Seq<u8>, at: int, kind: nat, n: nat) -> Result<
    (Seq<MetaV>, int),
    FileError,
>
    decreases s.len() - at, 1nat, n,
{
    if n == 0 {
        Ok((Seq::empty(), at))
    } else {
        match value_at(s, at, kind) {
            Err(e) => Err(e),
            Ok((v, e)) => if at < e <= s.len() {
                match list_at(s, e, kind, (n - 1) as nat) {
                    Ok((rest, z)) => Ok((seq![v] + rest, z)),
                    Err(z) => Err(z),
                }
            } else {
                Err(FileError::EndsEarly)
            },
        }
    }
}

/// Values in front of a list.
pub open spec fn behind<T>(head: Seq<T>, r: Result<(Seq<T>, int), FileError>) -> Result<
    (Seq<T>, int),
    FileError,
> {
    match r {
        Ok((rest, e)) => Ok((head + rest, e)),
        Err(e) => Err(e),
    }
}

fn read_value(data: &Vec<u8>, at: usize, kind: u32) -> (r: Result<(MetaValue, usize), FileError>)
    requires
        at <= data@.len(),
    ensures
        match r {
            Ok((v, e)) => value_at(data@, at as int, kind as nat) == Ok::<(MetaV, int), FileError>(
                (meta_view(v), e as int),
            ) && at < e <= data@.len(),
            Err(e) => value_at(data@, at as int, kind as nat) == Err::<(MetaV, int), FileError>(e),
        },
    decreases data@.len() - at, 0nat,
{
    if kind == 8 {
        return match read_text(data, at) {
            Ok((t, e)) => Ok((MetaValue::Text(t), e)),
            Err(e) => Err(e),
        };
    }
    if kind == 9 {
        let k: u64 = match read_word(data, at, 4) {
            Ok(k) => k,
            Err(e) => {
                return Err(e);
            },
        };
        let n: u64 = match read_word(data, at + 4, 8) {
            Ok(n) => n,
            Err(e) => {
                return Err(e);
            },
        };
        return match read_list(data, at + 12, k as u32, n) {
            Ok((l, e)) => Ok((MetaValue::List(l), e)),
            Err(e) => Err(e),
        };
    }
    let n: usize = match kind {
        0 | 1 | 7 => 1,
        2 | 3 => 2,
        4 | 5 | 6 => 4,
        10 | 11 | 12 => 8,
        _ => {
            return Err(FileError::MetaType(kind));
        },
    };
    let u: u64 = match read_word(data, at, n) {
        Ok(u) => u,
        Err(e) => {
            return Err(e);
        },
    };
    let v = match kind {
        6 => MetaValue::Single(u as u32),
        12 => MetaValue::Double(u),
        7 => MetaValue::Flag(u != 0),
        1 => MetaValue::Int(
            if u >= 0x80 {
                u as i64 - 0x100
            } else {
                u as i64
            },
        ),
        3 => MetaValue::Int(
            if u >= 0x8000 {
                u as i64 - 0x1_0000
            } else {
                u as i64
            },
        ),
        5 => MetaValue::Int(
            if u >= 0x8000_0000 {
                u as i64 - 0x1_0000_0000
            } else {
                u as i64
            },
        ),
        11 => MetaValue::Int(
            if u >= 0x8000_0000_0000_0000 {
                -((u64::MAX - u) as i64) - 1
            } else {
                u as i64
            },
        ),
        _ => MetaValue::Uint(u),
    };
    Ok((v, at + n))
}

fn read_list(data: &Vec<u8>, at: usize, kind: u32, n: u64) -> (r: Result<
    (Vec<MetaValue>, usize),
    FileError,
>)
    requires
        at <= data@.len(),
    ensures
        match r {
            Ok((l, e)) => list_at(data@, at as int, kind as nat, n as nat) == Ok::<
                (Seq<MetaV>, int),
                FileError,
            >((metas_view(l@), e as int)) && at <= e <= data@.len(),
            Err(e) => list_at(data@, at as int, kind as nat, n as nat) == Err::<
                (Seq<MetaV>, int),
                FileError,
            >(e),
        },
    decreases data@.len() - at, 1nat,
{
    let ghost s = data@;
    let ghost want = list_at(s, at as int, kind as nat, n as nat);
    let mut l: Vec<MetaValue> = Vec::new();
    let mut pos: usize = at;
    let mut left: u64 = n;
    assert(metas_view(l@) =~= Seq::<MetaV>::empty());
    assert(want is Ok ==> Seq::<MetaV>::empty() + want->Ok_0.0 =~= want->Ok_0.0);
    while left > 0
        invariant
            at <= pos <= data@.len(),
            s == data@,
            want == list_at(s, at as int, kind as nat, n as nat),
            want == behind(metas_view(l@), list_at(s, pos as int, kind as nat, left as nat)),
        decreases left,
    {
        let ghost before = metas_view(l@);
        let ghost rest = list_at(s, pos as int, kind as nat, left as nat);
        match read_value(data, pos, kind) {
            Err(e) => {
                return Err(e);
            },
            Ok((v, e)) => {
                let ghost mv = meta_view(v);
                l.push(v);
                proof {
                    assert(metas_view(l@) =~= before.push(mv));
                    let more = list_at(s, e as int, kind as nat, (left - 1) as nat);
                    if more is Ok {
                        assert(before + (seq![mv] + more->Ok_0.0) =~= before.push(mv)
                            + more->Ok_0.0);
                    }
                }
                pos = e;
                left -= 1;
            },
        }
    }
    assert(metas_view(l@) + Seq::<MetaV>::empty() =~= metas_view(l@));
    Ok((l, pos))
}

/// The `n` entries of the metadata from `at` on, and what follows.
pub open spec fn entries_at(s: Seq<u8>, at: int, n: nat) -> Result<
    (Seq<(Seq<u8>, MetaV)>, int),
    FileError,
>
    decreases n,
{
    if n == 0 {
        Ok((Seq::empty(), at))
    } else {
        match text_at(s, at) {
            Err(e) => Err(e),
            Ok((key, p)) => match word(s, p, 4) {
                None => Err(FileError::EndsEarly),
                Some(kind) => match value_at(s, p + 4, kind) {
                    Err(e) => Err(e),
                    Ok((v, e)) => behind(seq![(key, v)], entries_at(s, e, (n - 1) as nat)),
                },
            },
        }
    }
}

fn read_entries(data: &Vec<u8>, at: usize, n: u64) -> (r: Result<
    (Vec<MetaEntry>, usize),
    FileError,
>)
    requires
        at <= data@.len(),
    ensures
        match r {
            Ok((l, e)) => entries_at(data@, at as int, n as nat) == Ok::<
                (Seq<(Seq<u8>, MetaV)>, int),
                FileError,
            >((entries_view(l@), e as int)) && at <= e <= data@.len(),
            Err(e) => entries_at(data@, at as int, n as nat) == Err::<
                (Seq<(Seq<u8>, MetaV)>, int),
                FileError,
            >(e),
        },
{
    let ghost s = data@;
    let ghost want = entries_at(s, at as int, n as nat);
    let mut l: Vec<MetaEntry> = Vec::new();
    let mut pos: usize = at;
    let mut left: u64 = n;
    assert(entries_view(l@) =~= Seq::<(Seq<u8>, MetaV)>::empty());
    assert(want is Ok ==> Seq::<(Seq<u8>, MetaV)>::empty() + want->Ok_0.0 =~= want->Ok_0.0);
    while left > 0
        invariant
            at <= pos <= data@.len(),
            s == data@,
            want == entries_at(s, at as int, n as nat),
            want == behind(entries_view(l@), entries_at(s, pos as int, left as nat)),
        decreases left,
    {
        let ghost before = entries_view(l@);
        let (key, p) = match read_text(data, pos) {
            Ok(x) => x,
            Err(e) => {
                return Err(e);
            },
        };
        let kind: u64 = match read_word(data, p, 4) {
            Ok(k) => k,
            Err(e) => {
                return Err(e);
            },
        };
        let (value, e) = match read_value(data, p + 4, kind as u32) {
            Ok(x) => x,
            Err(e) => {
                return Err(e);
            },
        };
        let ghost item = (key@, meta_view(value));
        l.push(MetaEntry { key, value });
        proof {
            assert(entries_view(l@) =~= before.push(item));
            let more = entries_at(s, e as int, (left - 1) as nat);
            if more is Ok {
                assert(before + (seq![item] + more->Ok_0.0) =~= before.push(item) + more->Ok_0.0);
            }
        }
        pos = e;
        left -= 1;
    }
    assert(entries_view(l@) + Seq::<(Seq<u8>, MetaV)>::empty() =~= entries_view(l@));
    Ok((l, pos))
}

/// The `n` numbers of eight bytes from `at` on.
pub open spec fn dims_at(s: Seq<u8>, at: int, n: nat) -> Option<Seq<nat>>
    decreases n,
{
    if n == 0 {
        Some(Seq::empty())
    } else {
        match (dims_at(s, at, (n - 1) as nat), word(s, at + 8 * (n - 1), 8)) {
            (Some(d), Some(x)) => Some(d.push(x)),
            _ => None,
        }
    }
}

proof fn lemma_dims_end(s: Seq<u8>, at: int, m: nat, n: nat)
    requires
        m <= n,
        dims_at(s, at, m) is None,
    ensures
        dims_at(s, at, n) is None,
    decreases n,
{
    if m < n {
        lemma_dims_end(s, at, m, (n - 1) as nat);
    }
}

fn read_dims(data: &Vec<u8>, at: usize, n: u32) -> (r: Result<(Vec<u64>, usize), FileError>)
    requires
        at <= data@.len(),
    ensures
        match r {
            Ok((d, e)) => dims_at(data@, at as int, n as nat) == Some(
                d@.map_values(|x: u64| x as nat),
            ) && e == at + 8 * n && e <= data@.len(),
            Err(e) => dims_at(data@, at as int, n as nat) is None && e == FileError::EndsEarly,
        },
{
    let mut d: Vec<u64> = Vec::new();
    let mut pos: usize = at;
    let mut i: u32 = 0;
    let ghost f = |x: u64| x as nat;
    assert(d@.map_values(f) =~= Seq::<nat>::empty());
    while i < n
        invariant
            i <= n,
            pos == at + 8 * i,
            pos <= data@.len(),
            f == (|x: u64| x as nat),
            dims_at(data@, at as int, i as nat) == Some(d@.map_values(f)),
        decreases n - i,
    {
        match read_word(data, pos, 8) {
            Err(e) => {
                proof {
                    lemma_dims_end(data@, at as int, (i + 1) as nat, n as nat);
                }
                return Err(e);
            },
            Ok(x) => {
                let ghost before = d@.map_values(f);
                d.push(x);
                assert(d@.map_values(f) =~= before.push(x as nat));
                pos = pos + 8;
                i += 1;
            },
        }
    }
    Ok((d, pos))
}

/// The tensor at `at` in the table, and what follows.
pub open spec fn tensor_at(s: Seq<u8>, at: int) -> Result<(TensorV, int), FileError> {
    match text_at(s, at) {
        Err(e) => Err(e),
        Ok((name, p)) => match word(s, p, 4) {
            None => Err(FileError::EndsEarly),
            Some(rank) => {
                let q = p + 4 + 8 * rank;
                match (dims_at(s, p + 4, rank), word(s, q, 4), word(s, q + 4, 8)) {
                    (Some(dims), Some(kind), Some(offset)) => Ok(
                        (TensorV { name, dims, kind, offset }, q + 12),
                    ),
                    _ => Err(FileError::EndsEarly),
                }
            },
        },
    }
}

/// The `n` tensors from `at` on, and what follows.
pub open spec fn tensors_at(s: Seq<u8>, at: int, n: nat) -> Result<(Seq<TensorV>, int), FileError>
    decreases n,
{
    if n == 0 {
        Ok((Seq::empty(), at))
    } else {
        match tensor_at(s, at) {
            Err(e) => Err(e),
            Ok((t, e)) => behind(seq![t], tensors_at(s, e, (n - 1) as nat)),
        }
    }
}

fn read_tensor(data: &Vec<u8>, at: usize) -> (r: Result<(TensorInfo, usize), FileError>)
    requires
        at <= data@.len(),
    ensures
        match r {
            Ok((t, e)) => tensor_at(data@, at as int) == Ok::<(TensorV, int), FileError>(
                (t@, e as int),
            ) && at <= e <= data@.len(),
            Err(e) => tensor_at(data@, at as int) == Err::<(TensorV, int), FileError>(e),
        },
{
    let (name, p) = match read_text(data, at) {
        Ok(x) => x,
        Err(e) => {
            return Err(e);
        },
    };
    let rank: u64 = match read_word(data, p, 4) {
        Ok(x) => x,
        Err(e) => {
            return Err(e);
        },
    };
    let (dims, q) = match read_dims(data, p + 4, rank as u32) {
        Ok(x) => x,
        Err(e) => {
            return Err(e);
        },
    };
    let kind: u64 = match read_word(data, q, 4) {
        Ok(x) => x,
        Err(e) => {
            return Err(e);
        },
    };
    let offset: u64 = match read_word(data, q + 4, 8) {
        Ok(x) => x,
        Err(e) => {
            return Err(e);
        },
    };
    Ok((TensorInfo { name, dims, kind: kind as u32, offset }, q + 12))
}

fn read_tensors(data: &Vec<u8>, at: usize, n: u64) -> (r: Result<
    (Vec<TensorInfo>, usize),
    FileError,
>)
    requires
        at <= data@.len(),
    ensures
        match r {
            Ok((l, e)) => tensors_at(data@, at as int, n as nat) == Ok::<
                (Seq<TensorV>, int),
                FileError,
            >((tensors_view(l@), e as int)) && at <= e <= data@.len(),
            Err(e) => tensors_at(data@, at as int, n as nat) == Err::<
                (Seq<TensorV>, int),
                FileError,
            >(e),
        },
{
    let ghost s = data@;
    let ghost want = tensors_at(s, at as int, n as nat);
    let mut l: Vec<TensorInfo> = Vec::new();
    let mut pos: usize = at;
    let mut left: u64 = n;
    assert(tensors_view(l@) =~= Seq::<TensorV>::empty());
    assert(want is Ok ==> Seq::<TensorV>::empty() + want->Ok_0.0 =~= want->Ok_0.0);
    while left > 0
        invariant
            at <= pos <= data@.len(),
            s == data@,
            want == tensors_at(s, at as int, n as nat),
            want == behind(tensors_view(l@), tensors_at(s, pos as int, left as nat)),
        decreases left,
    {
        let ghost before = tensors_view(l@);
        match read_tensor(data, pos) {
            Err(e) => {
                return Err(e);
            },
            Ok((t, e)) => {
                let ghost item = t@;
                l.push(t);
                proof {
                    assert(tensors_view(l@) =~= before.push(item));
                    let more = tensors_at(s, e as int, (left - 1) as nat);
                    if more is Ok {
                        assert(before + (seq![item] + more->Ok_0.0) =~= before.push(item)
                            + more->Ok_0.0);
                    }
                }
                pos = e;
                left -= 1;
            },
        }
    }
    assert(tensors_view(l@) + Seq::<TensorV>::empty() =~= tensors_view(l@));
    Ok((l, pos))
}

/// The key of the alignment of the data.
pub open spec fn alignment_key() -> Seq<u8> {
    seq![
        103u8, 101u8, 110u8, 101u8, 114u8, 97u8, 108u8, 46u8, 97u8, 108u8, 105u8, 103u8, 110u8,
        109u8, 101u8, 110u8, 116u8,
    ]
}

/// The alignment that one value asks for, if it asks for one.
pub open spec fn asked_alignment(v: MetaV) -> nat {
    match v {
        MetaV::Uint(a) if a > 0 => a,
        MetaV::Int(a) if a > 0 => a as nat,
        _ => 32,
    }
}

/// The alignment of the data: what the last entry for it asks for.
pub open spec fn alignment(meta: Seq<(Seq<u8>, MetaV)>) -> nat
    decreases meta.len(),
{
    if meta.len() == 0 {
        32
    } else if meta.last().0 == alignment_key() {
        asked_alignment(meta.last().1)
    } else {
        alignment(meta.drop_last())
    }
}

fn same_bytes(a: &Vec<u8>, b: &Vec<u8>) -> (r: bool)
    ensures
        r == (a@ == b@),
{
    if a.len() != b.len() {
        return false;
    }
    let mut i: usize = 0;
    while i < a.len()
        invariant
            i <= a@.len(),
            a@.len() == b@.len(),
            forall|k: int| 0 <= k < i ==> a@[k] == b@[k],
        decreases a@.len() - i,
    {
        if a[i] != b[i] {
            return false;
        }
        i += 1;
    }
    assert(a@ =~= b@);
    true
}

fn find_alignment(meta: &Vec<MetaEntry>) -> (r: u64)
    ensures
        r == alignment(entries_view(meta@)),
        r > 0,
{
    let key: Vec<u8> = vec![
        103, 101, 110, 101, 114, 97, 108, 46, 97, 108, 105, 103, 110, 109, 101, 110, 116,
    ];
    assert(key@ =~= alignment_key());
    let ghost all = entries_view(meta@);
    let mut i: usize = meta.len();
    assert(all.take(i as int) =~= all);
    while i > 0
        invariant
            i <= meta@.len(),
            all == entries_view(meta@),
            key@ == alignment_key(),
            alignment(all) == alignment(all.take(i as int)),
        decreases i,
    {
        i -= 1;
        assert(all.take(i + 1).last() == (meta@[i as int].key@, meta_view(meta@[i as int].value)));
        assert(all.take(i + 1).drop_last() =~= all.take(i as int));
        if same_bytes(&meta[i].key, &key) {
            return match &meta[i].value {
                MetaValue::Uint(a) => if *a > 0 {
                    *a
                } else {
                    32
                },
                MetaValue::Int(a) => if *a > 0 {
                    *a as u64
                } else {
                    32
                },
                _ => 32,
            };
        }
    }
    32
}

/// The smallest multiple of a number that is not below another.
pub open spec fn aligned(at: nat, to: nat) -> nat {
    if at % to == 0 {
        at
    } else {
        (at - at % to + to) as nat
    }
}

/// What stands in front of the data of a file: a mark and a version, the numbers of tensors and of
/// entries, the entries and the tensors. The data begins at the next multiple of the alignment.
pub open spec fn head_of(s: Seq<u8>) -> Result<HeadV, FileError> {
    if s.len() < 4 {
        Err(FileError::EndsEarly)
    } else if s.take(4) != seq![71u8, 71u8, 85u8, 70u8] {
        Err(FileError::NotGguf)
    } else {
        match (word(s, 4, 4), word(s, 8, 8), word(s, 16, 8)) {
            (Some(_), Some(n), Some(m)) => match entries_at(s, 24, m) {
                Err(e) => Err(e),
                Ok((meta, p)) => match tensors_at(s, p, n) {
                    Err(e) => Err(e),
                    Ok((tensors, e)) => {
                        let start = aligned(e as nat, alignment(meta));
                        if start > usize::MAX {
                            Err(FileError::TooLarge)
                        } else {
                            Ok(HeadV { meta, tensors, start })
                        }
                    },
                },
            },
            _ => Err(FileError::EndsEarly),
        }
    }
}

/// Reads what stands in front of the data of a file.
pub fn read_head(data: &Vec<u8>) -> (r: Result<FileHead, FileError>)
    ensures
        match r {
            Ok(h) => head_of(data@) == Ok::<HeadV, FileError>(h@),
            Err(e) => head_of(data@) == Err::<HeadV, FileError>(e),
        },
{
    if data.len() < 4 {
        return Err(FileError::EndsEarly);
    }
    let ghost mark = seq![71u8, 71u8, 85u8, 70u8];
    assert(data@.take(4)[0] == data@[0] && data@.take(4)[1] == data@[1] && data@.take(4)[2]
        == data@[2] && data@.take(4)[3] == data@[3]);
    if data[0] != 71 || data[1] != 71 || data[2] != 85 || data[3] != 70 {
        return Err(FileError::NotGguf);
    }
    assert(data@.take(4) =~= mark);
    match read_word(data, 4, 4) {
        Ok(_) => {},
        Err(e) => {
            return Err(e);
        },
    }
    let n: u64 = match read_word(data, 8, 8) {
        Ok(x) => x,
        Err(e) => {
            return Err(e);
        },
    };
    let m: u64 = match read_word(data, 16, 8) {
        Ok(x) => x,
        Err(e) => {
            return Err(e);
        },
    };
    let (meta, p) = match read_entries(data, 24, m) {
        Ok(x) => x,
        Err(e) => {
            return Err(e);
        },
    };
    let (tensors, e) = match read_tensors(data, p, n) {
        Ok(x) => x,
        Err(e) => {
            return Err(e);
        },
    };
    let align: u64 = find_alignment(&meta);
    let over: u64 = e as u64 % align;
    if over == 0 {
        return Ok(FileHead { meta, tensors, start: e });
    }
    let more: u64 = align - over;
    if more > (usize::MAX - e) as u64 {
        return Err(FileError::TooLarge);
    }
    Ok(FileHead { meta, tensors, start: e + more as usize })
}

/// How many elements a block of a tensor type has, and how many bytes it takes.
pub open spec fn block_of(kind: u32) -> Option<(nat, nat)> {
    if kind == 0 {
        Some((1, 4))
    } else if kind == 1 || kind == 30 {
        Some((1, 2))
    } else if kind == 8 {
        Some((32, 34))
    } else if kind == 12 {
        Some((256, 144))
    } else if kind == 13 {
        Some((256, 176))
    } else if kind == 14 {
        Some((256, 210))
    } else {
        None
    }
}

/// The number of elements of a tensor.
pub open spec fn elements_of(dims: Seq<u64>) -> nat
    decreases dims.len(),
{
    if dims.len() == 0 {
        1
    } else {
        elements_of(dims.drop_last()) * dims.last() as nat
    }
}

fn count_elements(dims: &Vec<u64>) -> (r: Option<u64>)
    ensures
        match r {
            Some(n) => n == elements_of(dims@),
            None => elements_of(dims@) > u64::MAX,
        },
{
    let mut i: usize = 0;
    let mut n: u64 = 1;
    let mut large: bool = false;
    assert(dims@.take(0) =~= Seq::<u64>::empty());
    while i < dims.len()
        invariant
            i <= dims@.len(),
            if large {
                elements_of(dims@.take(i as int)) > u64::MAX
            } else {
                n == elements_of(dims@.take(i as int))
            },
        decreases dims@.len() - i,
    {
        let ghost t = dims@.take(i + 1);
        let d: u64 = dims[i];
        let ghost so_far = elements_of(dims@.take(i as int));
        proof {
            assert(t.drop_last() =~= dims@.take(i as int));
            assert(t.last() == d);
            assert(elements_of(t) == so_far * d);
            assert(d >= 1 ==> so_far * d >= so_far) by (nonlinear_arith);
            assert(d == 0 ==> so_far * d == 0) by (nonlinear_arith);
            assert(n * d <= u64::MAX * u64::MAX) by (nonlinear_arith)
                requires
                    n <= u64::MAX,
                    d <= u64::MAX,
            ;
        }
        if d == 0 {
            n = 0;
            large = false;
        } else if !large {
            let wide: u128 = (n as u128) * (d as u128);
            if wide > u64::MAX as u128 {
                large = true;
            } else {
                n = wide as u64;
            }
        }
        i += 1;
    }
    assert(dims@.take(dims@.len() as int) =~= dims@);
    if large {
        None
    } else {
        Some(n)
    }
}

/// How many elements a block of a tensor type has, and how many bytes it takes.
pub fn block_size(kind: u32) -> (r: Result<(usize, usize), FileError>)
    ensures
        match r {
            Ok((elems, bytes)) => block_of(kind) == Some((elems as nat, bytes as nat)) && 1 <= elems
                && bytes <= 210,
            Err(e) => block_of(kind) is None && e == FileError::TensorType(kind),
        },
{
    match kind {
        0 => Ok((1, 4)),
        1 | 30 => Ok((1, 2)),
        8 => Ok((32, 34)),
        12 => Ok((256, 144)),
        13 => Ok((256, 176)),
        14 => Ok((256, 210)),
        _ => Err(FileError::TensorType(kind)),
    }
}

/// How many bytes so many elements take, in blocks.
fn block_bytes(n: u64, elems: usize, bytes: usize) -> (r: u128)
    requires
        1 <= elems,
        bytes <= 210,
    ensures
        r == n as nat / elems as nat * bytes as nat,
        r <= u64::MAX * 210,
{
    let blocks: u64 = n / elems as u64;
    proof {
        assert(blocks * bytes <= u64::MAX * 210) by (nonlinear_arith)
            requires
                0 <= blocks <= u64::MAX,
                0 <= bytes <= 210,
        ;
    }
    (blocks as u128) * (bytes as u128)
}

/// Where the data of a tensor lies in a file of `len` bytes whose data begins at `start`, from and
/// to.
pub open spec fn range_of(t: TensorInfo, start: usize, len: usize) -> Result<
    (usize, usize),
    FileError,
> {
    match block_of(t.kind) {
        None => Err(FileError::TensorType(t.kind)),
        Some((elems, bytes)) => {
            let n = elements_of(t.dims@);
            let from = start + t.offset;
            let to = from + n / elems * bytes;
            if n > u64::MAX {
                Err(FileError::TooLarge)
            } else if to > len {
                Err(FileError::EndsEarly)
            } else {
                Ok((from as usize, to as usize))
            }
        },
    }
}

/// Where the data of a tensor lies.
pub fn tensor_range(t: &TensorInfo, start: usize, len: usize) -> (r: Result<
    (usize, usize),
    FileError,
>)
    ensures
        r == range_of(*t, start, len),
{
    let (elems, bytes) = match block_size(t.kind) {
        Ok(b) => b,
        Err(e) => {
            return Err(e);
        },
    };
    let n: u64 = match count_elements(&t.dims) {
        Some(n) => n,
        None => {
            return Err(FileError::TooLarge);
        },
    };
    let from: u128 = (start as u128) + (t.offset as u128);
    let to: u128 = from + block_bytes(n, elems, bytes);
    if to > len as u128 {
        Err(FileError::EndsEarly)
    } else {
        Ok((from as usize, to as usize))
    }
}

/// The number of bytes of a row of a tensor: the first dimension, in blocks.
pub open spec fn row_bytes(t: TensorInfo) -> nat {
    match block_of(t.kind) {
        Some((elems, bytes)) if t.dims@.len() > 0 => t.dims@[0] as nat / elems * bytes,
        _ => 0,
    }
}

/// Where row `row` of a tensor lies in its data of `len` bytes, from and to.
pub fn row_range(t: &TensorInfo, row: usize, len: usize) -> (r: Result<(usize, usize), FileError>)
    ensures
        r == (if block_of(t.kind) is None {
            Err(FileError::TensorType(t.kind))
        } else if (row + 1) * row_bytes(*t) > len {
            Err(FileError::EndsEarly)
        } else {
            Ok(((row * row_bytes(*t)) as usize, ((row + 1) * row_bytes(*t)) as usize))
        }),
{
    let (elems, bytes) = match block_size(t.kind) {
        Ok(b) => b,
        Err(e) => {
            return Err(e);
        },
    };
    let n: u64 = if t.dims.len() > 0 {
        t.dims[0]
    } else {
        0
    };
    proof {
        assert(0nat / elems as nat * bytes as nat == 0) by (nonlinear_arith)
            requires
                elems >= 1,
        ;
    }
    let width: u128 = block_bytes(n, elems, bytes);
    if width == 0 {
        assert(row * 0 == 0 && (row + 1) * 0 == 0) by (nonlinear_arith);
        return Ok((0, 0));
    }
    proof {
        assert(width > len ==> (row + 1) * width > len) by (nonlinear_arith);
    }
    if width > len as u128 {
        return Err(FileError::EndsEarly);
    }
    proof {
        assert((row + 1) * width <= 0x1_0000_0000_0000_0000 * u64::MAX && row * width <= (row + 1)
            * width && 0 <= row * width) by (nonlinear_arith)
            requires
                row <= u64::MAX,
                width <= u64::MAX,
        ;
    }
    let to: u128 = (row as u128 + 1) * width;
    if to > len as u128 {
        Err(FileError::EndsEarly)
    } else {
        Ok(((row as u128 * width) as usize, to as usize))
    }
}

/// The data of a tensor lies in the file and behind everything that stands in front of the data.
pub proof fn lemma_data_inside(t: TensorInfo, start: usize, len: usize)
    requires
        range_of(t, start, len) is Ok,
    ensures
        ({
            let (from, to) = range_of(t, start, len)->Ok_0;
            start <= from <= to <= len
        }),
{
}

} // verus!
