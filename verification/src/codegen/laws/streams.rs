//! The pass of a thread over one row of one matrix or of two, in the kernel that projects queries,
//! keys and values.

use vstd::prelude::*;

use crate::codegen::laws::group::quiet;
use crate::codegen::laws::machine::{
    index, lemma_run_one, lemma_run_push, meets, run, shared_at, step, turns, value, Arith, Lane,
    Regs,
};
use crate::codegen::laws::matvec::{lemma_dot_same, Job};
use crate::codegen::laws::sums::{lemma_had_all, lemma_other_remainders, lemma_turn, share};
use crate::codegen::laws::sweep::{lemma_inside, lemma_share_same, lemma_with_rest};
use crate::codegen::lower::block::{code, cu, ld, plus, tg_load, times, uv, v, vec_dot, Extend};
use crate::codegen::lower::fused::{
    stream_dot, stream_scalar, streams_dot, streams_unrolled, Qkv, Stream,
};
use crate::codegen::lower::matvec::{moved, packed_k_quant, unroll_off, x_at, x_dtype, Rows, Tiling};
use crate::ir::dtype::DType;
use crate::ir::kernel::{Code, KirStmt};

verus! {

/// A pass over row `r` of a group: the arithmetic, the group, the device buffers, the vector, the
/// tiling, one stream or two, and the variables that hold where the row begins and the position in
/// it.
#[verifier::reject_recursive_types(V)]
pub ghost struct Pass<V> {
    pub ar: Arith<V>,
    pub gid: int,
    pub bufs: spec_fn(u32, int) -> V,
    pub xs: spec_fn(int) -> V,
    pub q: Qkv,
    pub t: Tiling,
    pub s: Stream,
    pub s2: Option<Stream>,
    pub r: u32,
    pub base: u32,
    pub k: u32,
}

impl<V> Pass<V> {
    /// The row.
    pub open spec fn row(self) -> int {
        self.gid * self.t.nr + self.r
    }

    /// Where it begins.
    pub open spec fn start(self) -> int {
        self.row() * self.q.cols
    }

    /// How many streams there are.
    pub open spec fn n(self) -> int {
        if self.s2 is None {
            1
        } else {
            2
        }
    }

    pub open spec fn stream(self, w: int) -> Stream {
        if w == 0 {
            self.s
        } else {
            self.s2->0
        }
    }

    /// The product that a stream adds up, as that of a group with a single row.
    pub open spec fn job(self, w: int) -> Job<V> {
        let buf = self.stream(w).w;
        Job {
            ar: self.ar,
            gid: self.row(),
            bufs: |b: u32, i: int| (self.bufs)(buf, i),
            xs: self.xs,
            m: Rows {
                rows: u32::MAX,
                cols: self.q.cols,
                first: 0,
                ids: 1,
                per: 2,
                x_buf: self.q.x_buf,
                tg_x: Some(0u32),
                width: self.t.vec,
                dtype: if packed_k_quant(self.q.lead) {
                    DType::Q4K
                } else {
                    self.q.lead
                },
            },
            t: Tiling { nr: 1, ..self.t },
            k: 3,
        }
    }

    /// Whether the variables are apart and all indices are machine integers.
    pub open spec fn ok(self) -> bool {
        &&& self.t.ok()
        &&& self.s2 matches Some(o) ==> o.acc != self.s.acc
        &&& self.base != self.k
        &&& self.q.first != self.k
        &&& self.q.first != self.base
        &&& 0 <= self.gid
        &&& 0 <= self.start()
        &&& self.start() + self.q.cols <= u32::MAX
        &&& self.row() + 1 <= u32::MAX
        &&& self.q.cols + 0x80000 <= u32::MAX
        &&& self.q.tg_x is None ==> forall|i: int| #[trigger]
            (self.xs)(i) == (self.bufs)(self.q.x_buf, i)
    }

    /// Whether a thread is one of the group.
    pub open spec fn lane_ok(self, l: Lane<V>) -> bool {
        l.gid == self.gid && l.bufs == self.bufs && 0 <= l.lid < self.t.tg
    }

    /// Whether a thread that has written nothing reads the vector where it is and knows its row and
    /// its position.
    pub open spec fn is_set(self, l: Lane<V>, r: Regs<V>) -> bool {
        &&& quiet(r)
        &&& r.u.contains_key(self.k)
        &&& r.u[self.base] == self.start()
        &&& match self.q.tg_x {
            None => true,
            Some(id) => forall|i: int|
                0 <= i < self.q.cols ==> #[trigger] shared_at(l, r, id, i) == (self.xs)(i),
        }
    }

    /// The sums with a gain each.
    pub open spec fn gained(self, f: Map<u32, V>, gain: spec_fn(int) -> V) -> Map<u32, V> {
        let one = f.insert(self.s.acc, self.ar.sum(f[self.s.acc], gain(0)));
        match self.s2 {
            None => one,
            Some(o) => one.insert(o.acc, self.ar.sum(one[o.acc], gain(1))),
        }
    }

    /// Whether the sums of a thread hold its share of the first `c` chunks.
    pub open spec fn has_chunks(self, lid: int, f: Map<u32, V>, c: nat) -> bool {
        forall|w: int|
            0 <= w < self.n() ==> f[(#[trigger] self.stream(w)).acc] == share(
                self.ar,
                self.job(w).chunk(0),
                self.t.tg as int,
                lid,
                c,
            )
    }

    /// Whole chunks of a row.
    pub open spec fn chunks(self) -> int {
        self.q.cols as int / self.t.vec as int
    }

    /// Whether a thread stands at its turn `c` and has had its share of the chunks before.
    pub open spec fn stands(self, l: Lane<V>, r: Regs<V>, c: nat) -> bool {
        &&& self.is_set(l, r)
        &&& r.u[self.k] == c * self.t.vec
        &&& self.has_chunks(l.lid, r.f, c)
        &&& c as int % self.t.tg as int == l.lid
        &&& c < self.chunks() + self.t.tg
    }

    /// The loop over unrolled chunks.
    pub open spec fn main_loop(self) -> Code {
        Code::ForRange {
            id: self.k,
            limit_off: cu(self.t.main_off()),
            bound: cu(self.q.cols),
            step: cu(self.t.step()),
            body: streams_unrolled(
                self.q,
                self.t,
                self.s,
                self.s2,
                self.base,
                self.k,
                self.t.unroll as nat,
            ),
        }
    }

    /// The loop over single chunks.
    pub open spec fn chunk_loop(self) -> Code {
        Code::ForRange {
            id: self.k,
            limit_off: cu((self.t.vec - 1) as u32),
            bound: cu(self.q.cols),
            step: cu(self.t.stride as u32),
            body: streams_dot(
                code(),
                self.q,
                self.t,
                self.s,
                self.s2,
                self.base,
                self.k,
                None,
            ),
        }
    }

    /// One element for each stream.
    pub open spec fn element_code(self) -> Seq<Code> {
        let one = code().s(stream_scalar(self.q, self.s, self.base, self.k));
        match self.s2 {
            None => one,
            Some(o) => one.s(stream_scalar(self.q, o, self.base, self.k)),
        }
    }

    /// The loop over single elements.
    pub open spec fn tail_loop(self) -> Code {
        Code::ForRange {
            id: self.k,
            limit_off: cu(0),
            bound: cu(self.q.cols),
            step: cu(self.t.tg as u32),
            body: self.element_code(),
        }
    }

    /// Whether a thread has had its share of everything.
    pub open spec fn has_all(self, lid: int, f: Map<u32, V>) -> bool {
        forall|w: int|
            0 <= w < self.n() ==> f[(#[trigger] self.stream(w)).acc] == share(
                self.ar,
                self.job(w).part(0),
                self.t.tg as int,
                lid,
                self.job(w).parts(),
            )
    }
}

/// What a thread sees of the vector and of its row does not depend on its sums and its position.
proof fn lemma_set<V>(p: Pass<V>, l: Lane<V>, q: Regs<V>, r: Regs<V>)
    requires
        p.ok(),
        p.is_set(l, r),
        q.writes == r.writes,
        q.stored == r.stored,
        q.u == r.u || q.u == r.u.insert(p.k, q.u[p.k]),
    ensures
        p.is_set(l, q),
{
    assert(q.u[p.base] == r.u[p.base]);
    match p.q.tg_x {
        None => {},
        Some(id) => {
            assert forall|i: int| 0 <= i < p.q.cols implies #[trigger] shared_at(l, q, id, i)
                == (p.xs)(i) by {
                assert(shared_at(l, r, id, i) == (p.xs)(i));
            }
        },
    }
}

/// One chunk at `at` for one stream.
proof fn lemma_stream_dot<V>(
    p: Pass<V>,
    l: Lane<V>,
    r: Regs<V>,
    d: Option<u32>,
    at: int,
    w: int,
)
    requires
        p.ok(),
        p.lane_ok(l),
        p.is_set(l, r),
        0 <= w < p.n(),
        at == r.u[p.k] + (match d {
            None => 0,
            Some(d) => d as int,
        }),
        0 <= r.u[p.k],
        at + p.t.vec <= p.q.cols,
    ensures
        ({
            let s = p.stream(w);
            step(p.ar, l, Code::Flat(stream_dot(p.q, p.t, s, p.base, p.k, d)), r) == (Regs {
                f: r.f.insert(s.acc, p.ar.sum(r.f[s.acc], p.job(w).dot_at(0, at))),
                ..r
            })
        }),
{
    let (ar, s, job) = (p.ar, p.stream(w), p.job(w));
    let e = moved(p.k, d);
    assert(index(ar, l, r, uv(p.k)) == r.u[p.k]);
    match d {
        None => {},
        Some(d) => {
            assert(index(ar, l, r, cu(d)) == d);
        },
    }
    assert(index(ar, l, r, e) == at);
    assert(index(ar, l, r, uv(p.base)) == p.start());
    let i = index(ar, l, r, plus(uv(p.base), e));
    assert(i == p.start() + at);
    let a = |n: int| (l.bufs)(s.w, i + n);
    let b = |n: int|
        match p.q.tg_x {
            Some(id) => shared_at(l, r, id, at + n),
            None => (l.bufs)(p.q.x_buf, at + n),
        };
    let x = |n: int| job.x(at + n);
    let y = |n: int| job.weight(0, at + n);
    assert(job.first() == p.row());
    assert forall|n: int| 0 <= n < p.t.vec implies #[trigger] b(n) == x(n) by {
        match p.q.tg_x {
            Some(id) => {
                assert(shared_at(l, r, id, at + n) == (p.xs)(at + n));
            },
            None => {
                assert((p.xs)(at + n) == (p.bufs)(p.q.x_buf, at + n));
            },
        }
    }
    assert forall|n: int| 0 <= n < p.t.vec implies #[trigger] a(n) == y(n) by {}
    lemma_dot_same(ar, a, b, y, x, p.t.vec as nat);
    let whole = vec_dot(
        s.w,
        plus(uv(p.base), e),
        p.q.x_buf,
        e,
        p.t.vec,
        s.dtype,
        p.q.tg_x,
    );
    assert(value(ar, l, r, whole) == ar.dot(a, b, p.t.vec as nat));
    assert(value(ar, l, r, v(s.acc)) == r.f[s.acc]);
}

/// One chunk at `at`.
proof fn lemma_streams_dot<V>(
    p: Pass<V>,
    l: Lane<V>,
    b: Seq<Code>,
    d: Option<u32>,
    at: int,
    r0: Regs<V>,
)
    requires
        p.ok(),
        p.lane_ok(l),
        ({
            let r = run(p.ar, l, b, r0);
            &&& p.is_set(l, r)
            &&& at == r.u[p.k] + (match d {
                None => 0,
                Some(d) => d as int,
            })
            &&& 0 <= r.u[p.k]
        }),
        at + p.t.vec <= p.q.cols,
    ensures
        ({
            let r = run(p.ar, l, b, r0);
            run(p.ar, l, streams_dot(b, p.q, p.t, p.s, p.s2, p.base, p.k, d), r0) == (Regs {
                f: p.gained(r.f, |w: int| p.job(w).dot_at(0, at)),
                ..r
            })
        }),
{
    let r = run(p.ar, l, b, r0);
    let s = Code::Flat(stream_dot(p.q, p.t, p.s, p.base, p.k, d));
    lemma_run_push(p.ar, l, b, s, r0);
    lemma_stream_dot(p, l, r, d, at, 0);
    match p.s2 {
        None => {},
        Some(o) => {
            let s2 = Code::Flat(stream_dot(p.q, p.t, o, p.base, p.k, d));
            let mid = run(p.ar, l, b.push(s), r0);
            lemma_run_push(p.ar, l, b.push(s), s2, r0);
            lemma_set(p, l, mid, r);
            lemma_stream_dot(p, l, mid, d, at, 1);
        },
    }
}

/// The turn of a thread at chunk `c`.
proof fn lemma_chunk_turn<V>(p: Pass<V>, lid: int, f: Map<u32, V>, c: nat)
    requires
        p.ok(),
        p.has_chunks(lid, f, c),
        c as int % p.t.tg as int == lid,
    ensures
        p.has_chunks(
            lid,
            p.gained(f, |w: int| p.job(w).dot_at(0, c * p.t.vec)),
            (c + p.t.tg) as nat,
        ),
        (c + p.t.tg) % p.t.tg as int == lid,
{
    let gain = |w: int| p.job(w).dot_at(0, c * p.t.vec);
    let h = p.gained(f, gain);
    lemma_turn(p.ar, p.job(0).chunk(0), p.t.tg as int, lid, c);
    assert forall|w: int| 0 <= w < p.n() implies h[(#[trigger] p.stream(w)).acc] == share(
        p.ar,
        p.job(w).chunk(0),
        p.t.tg as int,
        lid,
        (c + p.t.tg) as nat,
    ) by {
        lemma_turn(p.ar, p.job(w).chunk(0), p.t.tg as int, lid, c);
        assert(f[p.stream(w).acc] == share(
            p.ar,
            p.job(w).chunk(0),
            p.t.tg as int,
            lid,
            c,
        ));
    }
}

/// `u` chunks of an unrolled loop from chunk `c` on.
proof fn lemma_unrolled<V>(p: Pass<V>, l: Lane<V>, r0: Regs<V>, c: nat, u: nat)
    requires
        p.ok(),
        p.lane_ok(l),
        p.is_set(l, r0),
        r0.u[p.k] == c * p.t.vec,
        p.has_chunks(l.lid, r0.f, c),
        c as int % p.t.tg as int == l.lid,
        u <= p.t.unroll,
        u > 0 ==> (c + (u - 1) * p.t.tg + 1) * p.t.vec <= p.q.cols,
    ensures
        ({
            let b = streams_unrolled(p.q, p.t, p.s, p.s2, p.base, p.k, u);
            let r = run(p.ar, l, b, r0);
            &&& r == (Regs { f: r.f, ..r0 })
            &&& p.has_chunks(l.lid, r.f, (c + u * p.t.tg) as nat)
            &&& (c + u * p.t.tg) as int % p.t.tg as int == l.lid
        }),
    decreases u,
{
    let tg = p.t.tg as int;
    let vec = p.t.vec as int;
    let cols = p.q.cols as int;
    let b = streams_unrolled(p.q, p.t, p.s, p.s2, p.base, p.k, u);
    if u > 0 {
        let w = (u - 1) as nat;
        assert(w > 0 ==> (c + (w - 1) * tg + 1) * vec <= cols) by (nonlinear_arith)
            requires
                (c + w * tg + 1) * vec <= cols,
                0 <= vec,
                0 <= tg,
        ;
        lemma_unrolled(p, l, r0, c, w);
        let before = streams_unrolled(p.q, p.t, p.s, p.s2, p.base, p.k, w);
        let r = run(p.ar, l, before, r0);
        let d = unroll_off(w as int, p.t.stride);
        let e = (c + w * tg) as nat;
        let at = e * vec;
        assert(at == c * vec + w * p.t.stride) by (nonlinear_arith)
            requires
                at == (c + w * tg) * vec,
                p.t.stride == tg * vec,
        ;
        assert(at + vec == (c + w * tg + 1) * vec) by (nonlinear_arith)
            requires
                at == (c + w * tg) * vec,
        ;
        assert(0 <= c * vec) by (nonlinear_arith)
            requires
                0 <= vec,
        ;
        assert(0 <= w * p.t.stride <= 8 * 32768) by (nonlinear_arith)
            requires
                0 <= w <= 8,
                0 <= p.t.stride <= 32768,
        ;
        assert(w == 0 ==> w * p.t.stride == 0);
        lemma_set(p, l, r, r0);
        lemma_streams_dot(p, l, before, d, at, r0);
        lemma_chunk_turn(p, l.lid, r.f, e);
        assert(c + u * tg == e + tg) by (nonlinear_arith)
            requires
                e == c + w * tg,
                u == w + 1,
        ;
    } else {
        assert(run(p.ar, l, b, r0) == r0);
        assert(c + 0 * p.t.tg == c);
    }
}

/// Where a thread stands is a machine integer, with room for a turn.
proof fn lemma_position<V>(p: Pass<V>, c: nat)
    requires
        p.ok(),
        c < p.chunks() + p.t.tg,
    ensures
        0 <= c * p.t.vec < p.q.cols + p.t.stride,
        0 < p.t.stride,
{
    let vec = p.t.vec as int;
    let n = p.chunks();
    let tg = p.t.tg as int;
    lemma_inside(p.q.cols as int, vec, 0);
    assert(0 <= c * vec && c * vec <= (n + tg - 1) * vec) by (nonlinear_arith)
        requires
            0 < vec,
            0 <= c <= n + tg - 1,
    ;
    assert((n + tg - 1) * vec == n * vec + tg * vec - vec) by (nonlinear_arith);
    assert(tg * vec > 0) by (nonlinear_arith)
        requires
            tg >= 1,
            vec >= 1,
    ;
}

/// The loop over unrolled chunks takes a thread from one of its turns to a later one.
pub proof fn lemma_main_loop<V>(p: Pass<V>, l: Lane<V>, r: Regs<V>, c: nat)
    requires
        p.ok(),
        p.lane_ok(l),
        p.stands(l, r, c),
    ensures
        ({
            let q = turns(p.ar, l, p.main_loop(), r);
            &&& exists|d: nat| p.stands(l, q, d)
            &&& q == (Regs { f: q.f, u: r.u.insert(p.k, q.u[p.k]), ..r })
        }),
    decreases p.chunks() + p.t.tg - c,
{
    let tg = p.t.tg as int;
    let vec = p.t.vec as int;
    let cols = p.q.cols as int;
    let unroll = p.t.unroll as int;
    let stride = p.t.stride as int;
    lemma_position(p, c);
    assert(0 <= (unroll - 1) * stride <= 7 * 32768 && stride * unroll <= 8 * 32768 && stride
        * unroll > 0) by (nonlinear_arith)
        requires
            1 <= unroll <= 8,
            0 < stride <= 32768,
    ;
    assert(p.t.main_off() == (unroll - 1) * stride + vec - 1);
    assert(p.t.step() == stride * unroll);
    let e = c + (unroll - 1) * tg;
    assert((e + 1) * vec == c * vec + (unroll - 1) * stride + vec) by (nonlinear_arith)
        requires
            e == c + (unroll - 1) * tg,
            stride == tg * vec,
    ;
    lemma_inside(cols, vec, e);
    let whole = p.main_loop();
    assert(index(p.ar, l, r, cu(p.t.main_off())) == p.t.main_off());
    assert(index(p.ar, l, r, cu(p.q.cols)) == cols);
    if (e + 1) * vec <= cols {
        lemma_unrolled(p, l, r, c, unroll as nat);
        let body = streams_unrolled(p.q, p.t, p.s, p.s2, p.base, p.k, unroll as nat);
        let b = run(p.ar, l, body, r);
        assert(index(p.ar, l, b, cu(p.t.step())) == stride * unroll);
        let d = (c + unroll * tg) as nat;
        assert(unroll * tg > 0 && d == e + tg) by (nonlinear_arith)
            requires
                e == c + (unroll - 1) * tg,
                d == c + unroll * tg,
                unroll >= 1,
                tg >= 1,
        ;
        let at = c * vec + stride * unroll;
        assert(at == d * vec) by (nonlinear_arith)
            requires
                at == c * vec + stride * unroll,
                stride == tg * vec,
                d == c + unroll * tg,
        ;
        let next = Regs { u: b.u.insert(p.k, at), ..b };
        assert(turns(p.ar, l, whole, r) == turns(p.ar, l, whole, next));
        lemma_set(p, l, next, r);
        lemma_main_loop(p, l, next, d);
        let q = turns(p.ar, l, whole, r);
        assert(r.u.insert(p.k, at).insert(p.k, q.u[p.k]) =~= r.u.insert(p.k, q.u[p.k]));
    } else {
        assert(turns(p.ar, l, whole, r) == r);
        assert(r.u =~= r.u.insert(p.k, r.u[p.k]));
    }
}

/// The loop over single chunks takes a thread to its first turn behind the last whole chunk.
pub proof fn lemma_chunk_loop<V>(p: Pass<V>, l: Lane<V>, r: Regs<V>, c: nat)
    requires
        p.ok(),
        p.lane_ok(l),
        p.stands(l, r, c),
    ensures
        ({
            let q = turns(p.ar, l, p.chunk_loop(), r);
            &&& exists|d: nat| d >= p.chunks() && p.stands(l, q, d)
            &&& q == (Regs { f: q.f, u: r.u.insert(p.k, q.u[p.k]), ..r })
        }),
    decreases p.chunks() + p.t.tg - c,
{
    let tg = p.t.tg as int;
    let vec = p.t.vec as int;
    let cols = p.q.cols as int;
    let stride = p.t.stride as int;
    lemma_position(p, c);
    assert((c + 1) * vec == c * vec + vec) by (nonlinear_arith);
    lemma_inside(cols, vec, c as int);
    let whole = p.chunk_loop();
    assert(index(p.ar, l, r, cu((vec - 1) as u32)) == vec - 1);
    assert(index(p.ar, l, r, cu(p.q.cols)) == cols);
    if (c + 1) * vec <= cols {
        let at = c * vec;
        assert(run(p.ar, l, code(), r) == r);
        lemma_streams_dot(p, l, code(), None, at, r);
        lemma_chunk_turn(p, l.lid, r.f, c);
        let body = streams_dot(code(), p.q, p.t, p.s, p.s2, p.base, p.k, None);
        let b = run(p.ar, l, body, r);
        assert(index(p.ar, l, b, cu(p.t.stride as u32)) == stride);
        let d = (c + tg) as nat;
        assert(at + stride == d * vec) by (nonlinear_arith)
            requires
                at == c * vec,
                stride == tg * vec,
                d == c + tg,
        ;
        let next = Regs { u: b.u.insert(p.k, at + stride), ..b };
        assert(turns(p.ar, l, whole, r) == turns(p.ar, l, whole, next));
        lemma_set(p, l, next, r);
        lemma_chunk_loop(p, l, next, d);
        let q = turns(p.ar, l, whole, r);
        assert(r.u.insert(p.k, at + stride).insert(p.k, q.u[p.k]) =~= r.u.insert(p.k, q.u[p.k]));
    } else {
        assert(turns(p.ar, l, whole, r) == r);
        assert(r.u =~= r.u.insert(p.k, r.u[p.k]));
    }
}

/// One element at `at` for one stream.
proof fn lemma_stream_scalar<V>(p: Pass<V>, l: Lane<V>, r: Regs<V>, at: int, w: int)
    requires
        p.ok(),
        p.lane_ok(l),
        p.is_set(l, r),
        0 <= w < p.n(),
        r.u[p.k] == at,
        0 <= at < p.q.cols,
    ensures
        ({
            let s = p.stream(w);
            step(p.ar, l, Code::Flat(stream_scalar(p.q, s, p.base, p.k)), r) == (Regs {
                f: r.f.insert(s.acc, p.ar.sum(r.f[s.acc], p.job(w).term(0)(at))),
                ..r
            })
        }),
{
    let (ar, s, job) = (p.ar, p.stream(w), p.job(w));
    assert(index(ar, l, r, uv(p.base)) == p.start());
    assert(index(ar, l, r, uv(p.k)) == at);
    assert(index(ar, l, r, plus(uv(p.base), uv(p.k))) == p.start() + at);
    let a = ld(s.w, plus(uv(p.base), uv(p.k)), s.dtype);
    let x = x_at(p.q.tg_x, p.q.x_buf, p.k, x_dtype(p.q.lead));
    assert(job.first() == p.row());
    assert(value(ar, l, r, a) == job.weight(0, at));
    match p.q.tg_x {
        None => {
            assert((p.xs)(at) == (p.bufs)(p.q.x_buf, at));
        },
        Some(id) => {
            assert(shared_at(l, r, id, at) == (p.xs)(at));
            assert(x == tg_load(id, uv(p.k)));
        },
    }
    assert(value(ar, l, r, x) == job.x(at));
    assert(value(ar, l, r, times(a, x)) == job.term(0)(at));
    assert(value(ar, l, r, v(s.acc)) == r.f[s.acc]);
    assert(value(ar, l, r, plus(v(s.acc), times(a, x))) == ar.sum(
        r.f[s.acc],
        job.term(0)(at),
    ));
}

/// One element at `at`.
proof fn lemma_element<V>(p: Pass<V>, l: Lane<V>, r: Regs<V>, at: int)
    requires
        p.ok(),
        p.lane_ok(l),
        p.is_set(l, r),
        r.u[p.k] == at,
        0 <= at < p.q.cols,
    ensures
        run(p.ar, l, p.element_code(), r) == (Regs {
            f: p.gained(r.f, |w: int| p.job(w).term(0)(at)),
            ..r
        }),
{
    let s = Code::Flat(stream_scalar(p.q, p.s, p.base, p.k));
    lemma_run_one(p.ar, l, s, r);
    lemma_stream_scalar(p, l, r, at, 0);
    match p.s2 {
        None => {},
        Some(o) => {
            let s2 = Code::Flat(stream_scalar(p.q, o, p.base, p.k));
            let mid = run(p.ar, l, code().push(s), r);
            lemma_run_push(p.ar, l, code().push(s), s2, r);
            lemma_set(p, l, mid, r);
            lemma_stream_scalar(p, l, mid, at, 1);
        },
    }
}

/// The tail of a thread, where one turn is enough or the thread is alone.
proof fn lemma_tail_loop<V>(p: Pass<V>, l: Lane<V>, r: Regs<V>)
    requires
        p.ok(),
        p.lane_ok(l),
        p.is_set(l, r),
        0 <= r.u[p.k] < p.q.cols + p.t.stride,
        p.t.tg == 1 || r.u[p.k] + 1 >= p.q.cols,
    ensures
        ({
            let q = turns(p.ar, l, p.tail_loop(), r);
            &&& q == (Regs { f: q.f, u: r.u.insert(p.k, q.u[p.k]), ..r })
            &&& forall|w: int|
                0 <= w < p.n() ==> q.f[(#[trigger] p.stream(w)).acc] == p.job(w).with_rest(
                    0,
                    r.f[p.stream(w).acc],
                    r.u[p.k],
                )
        }),
    decreases p.q.cols + p.t.stride - r.u[p.k],
{
    let at = r.u[p.k];
    let tg = p.t.tg as int;
    let whole = p.tail_loop();
    assert(index(p.ar, l, r, cu(0)) == 0);
    assert(index(p.ar, l, r, cu(p.q.cols)) == p.q.cols);
    if at < p.q.cols {
        lemma_element(p, l, r, at);
        let b = run(p.ar, l, p.element_code(), r);
        assert(index(p.ar, l, b, cu(p.t.tg as u32)) == tg);
        assert(tg <= p.t.stride) by (nonlinear_arith)
            requires
                p.t.stride == tg * p.t.vec,
                p.t.vec >= 1,
                tg >= 1,
        ;
        let next = Regs { u: b.u.insert(p.k, at + tg), ..b };
        assert(turns(p.ar, l, whole, r) == turns(p.ar, l, whole, next));
        lemma_set(p, l, next, r);
        lemma_tail_loop(p, l, next);
        let q = turns(p.ar, l, whole, r);
        assert(r.u.insert(p.k, at + tg).insert(p.k, q.u[p.k]) =~= r.u.insert(p.k, q.u[p.k]));
        assert forall|w: int| 0 <= w < p.n() implies q.f[(#[trigger] p.stream(w)).acc] == p.job(
            w,
        ).with_rest(0, r.f[p.stream(w).acc], at) by {
            let job = p.job(w);
            let a = p.ar.sum(r.f[p.stream(w).acc], job.term(0)(at));
            assert(next.f[p.stream(w).acc] == a);
            assert(job.with_rest(0, r.f[p.stream(w).acc], at) == job.with_rest(0, a, at + 1));
            if tg != 1 {
                assert(job.with_rest(0, a, at + 1) == a);
                assert(job.with_rest(0, a, at + tg) == a);
            }
        }
    } else {
        assert(turns(p.ar, l, whole, r) == r);
        assert(r.u =~= r.u.insert(p.k, r.u[p.k]));
    }
}

/// A thread behind the last whole chunk has had its share of everything as soon as it is through
/// the tail; where there is no tail, it has had it already.
pub proof fn lemma_tail<V>(p: Pass<V>, l: Lane<V>, r: Regs<V>, c: nat)
    requires
        p.ar.exact(),
        p.ok(),
        p.lane_ok(l),
        p.stands(l, r, c),
        c >= p.chunks(),
        p.job(0).reaches_all(),
    ensures
        p.job(0).parts() == p.chunks() ==> p.has_all(l.lid, r.f),
        ({
            let q = turns(p.ar, l, p.tail_loop(), r);
            &&& q == (Regs { f: q.f, u: r.u.insert(p.k, q.u[p.k]), ..r })
            &&& p.has_all(l.lid, q.f)
        }),
{
    let n = p.chunks();
    let tg = p.t.tg as int;
    let vec = p.t.vec as int;
    let cols = p.q.cols as int;
    lemma_inside(cols, vec, 0);
    lemma_position(p, c);
    assert(n >= 0) by (nonlinear_arith)
        requires
            n == cols / vec,
            cols >= 0,
            vec >= 1,
    ;
    let at = r.u[p.k];
    assert(c > n ==> at >= n * vec + vec) by (nonlinear_arith)
        requires
            at == c * vec,
            vec >= 1,
    ;
    assert(c == n ==> at == n * vec);
    if n % tg == l.lid && c > n {
        lemma_other_remainders(n, tg, l.lid);
        assert(c as int % tg != l.lid);
    }
    assert(n % tg == l.lid <==> c == n);
    lemma_tail_loop(p, l, r);
    let q = turns(p.ar, l, p.tail_loop(), r);
    assert forall|w: int| 0 <= w < p.n() implies {
        let job = p.job(w);
        let had = share(p.ar, job.part(0), tg, l.lid, n as nat);
        &&& r.f[(#[trigger] p.stream(w)).acc] == had
        &&& q.f[p.stream(w).acc] == share(p.ar, job.part(0), tg, l.lid, job.parts())
    } by {
        let job = p.job(w);
        let had = share(p.ar, job.part(0), tg, l.lid, n as nat);
        lemma_had_all(p.ar, job.chunk(0), tg, l.lid, n as nat, c);
        lemma_share_same(job, 0, l.lid, n as nat);
        assert(r.f[p.stream(w).acc] == had);
        assert(q.f[p.stream(w).acc] == job.with_rest(0, had, at));
        if c == n {
            if job.parts() != n {
                lemma_with_rest(job, 0, had, at);
            }
        }
    }
}

/// In the loops of the pass no thread waits for another.
pub proof fn lemma_no_waiting<V>(p: Pass<V>)
    ensures
        !meets(p.main_loop()),
        !meets(p.chunk_loop()),
        !meets(p.tail_loop()),
{
    lemma_unrolled_steps(p, p.t.unroll as nat);
}

/// Unrolled chunks are sums that gain.
proof fn lemma_unrolled_steps<V>(p: Pass<V>, u: nat)
    ensures
        ({
            let b = streams_unrolled(p.q, p.t, p.s, p.s2, p.base, p.k, u);
            forall|i: int|
                0 <= i < b.len() ==> (#[trigger] b[i]) != Code::Flat(KirStmt::Barrier)
        }),
    decreases u,
{
    if u > 0 {
        lemma_unrolled_steps(p, (u - 1) as nat);
    }
}

} // verus!
