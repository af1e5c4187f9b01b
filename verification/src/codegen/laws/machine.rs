//! The meaning of kernel bodies. Values are those of any arithmetic; the threads of a group take
//! the statements of the outermost block together, one after the other.

use vstd::prelude::*;

use crate::ir::dtype::{Scalar, ZERO};
use crate::ir::kernel::{BinOp, Code, KirExpr, KirStmt, UnaryOp};

verus! {

/// An arithmetic: what constants stand for and what the operations do.
#[verifier::reject_recursive_types(V)]
pub ghost struct Arith<V> {
    pub constant: spec_fn(Scalar) -> V,
    pub binary: spec_fn(BinOp, V, V) -> V,
    pub unary: spec_fn(UnaryOp, V) -> V,
    pub above: spec_fn(V, V) -> bool,
    pub same: spec_fn(V, V) -> bool,
    pub of_index: spec_fn(int) -> V,
    pub to_index: spec_fn(V) -> int,
    /// What becomes of one of 32 values that are packed together.
    pub packed: spec_fn(Seq<V>, int) -> V,
    /// What one of 32 lanes adds for 256 weights that are packed together (of Q6_K, or else of
    /// Q4_K) and as many activations.
    pub part: spec_fn(bool, Seq<V>, Seq<V>, int) -> V,
}

impl<V> Arith<V> {
    pub open spec fn sum(self, a: V, b: V) -> V {
        (self.binary)(BinOp::Add, a, b)
    }

    pub open spec fn product(self, a: V, b: V) -> V {
        (self.binary)(BinOp::Mul, a, b)
    }

    pub open spec fn zero(self) -> V {
        (self.constant)(Scalar::Bits(ZERO))
    }

    /// Whether sums may be taken in any order and zero adds nothing.
    #[verifier::opaque]
    pub open spec fn exact(self) -> bool {
        &&& forall|a: V, b: V, c: V|
            self.sum(self.sum(a, b), c) == #[trigger] self.sum(a, self.sum(b, c))
        &&& forall|a: V, b: V| #[trigger] self.sum(a, b) == self.sum(b, a)
        &&& forall|a: V| #[trigger] self.sum(self.zero(), a) == a
    }

    /// The products of `n` pairs of values, added up.
    pub open spec fn dot(self, a: spec_fn(int) -> V, b: spec_fn(int) -> V, n: nat) -> V
        decreases n,
    {
        if n == 0 {
            self.zero()
        } else if n == 1 {
            self.product(a(0), b(0))
        } else {
            self.sum(self.dot(a, b, (n - 1) as nat), self.product(a(n - 1), b(n - 1)))
        }
    }
}

/// What a thread sees but cannot change: its place in the launch, the logical elements of the
/// device buffers, and the arrays of its group.
pub ghost struct Lane<V> {
    pub gid: int,
    pub lid: int,
    pub bufs: spec_fn(u32, int) -> V,
    pub shared: Map<(u32, int), V>,
}

/// What a thread holds: variables, its own arrays, and what it has written.
#[verifier::ext_equal]
pub ghost struct Regs<V> {
    pub f: Map<u32, V>,
    pub u: Map<u32, int>,
    pub local: Map<(u32, int), V>,
    /// Writes to the arrays of the group that the group has not seen yet.
    pub writes: Map<(u32, int), V>,
    /// Writes to device buffers that the group has not seen yet.
    pub stored: Map<(u32, int), V>,
}

/// Unsigned arithmetic on 32 bits.
pub open spec fn wrap(i: int) -> int {
    i % 0x1_0000_0000
}

/// An unsigned operation.
pub open spec fn index_op(op: BinOp, x: int, y: int) -> int {
    match op {
        BinOp::Add => wrap(x + y),
        BinOp::Sub => wrap(x - y),
        BinOp::Mul => wrap(x * y),
        BinOp::Div => if y == 0 {
            arbitrary()
        } else {
            x / y
        },
        BinOp::Max => if x > y {
            x
        } else {
            y
        },
        BinOp::Min => if x < y {
            x
        } else {
            y
        },
    }
}

/// Whether an expression is unsigned.
pub open spec fn is_index(e: KirExpr) -> bool
    decreases e,
{
    match e {
        KirExpr::ConstU32(_) | KirExpr::Gid | KirExpr::Lid | KirExpr::ForVar(_) | KirExpr::UVar(_)
        | KirExpr::CastF32ToU32(_) => true,
        KirExpr::Bin { a, .. } => is_index(*a),
        _ => false,
    }
}

/// The value of an expression as an index: unsigned, but a sum or product that begins with a float
/// variable is taken in floats and then cut.
pub open spec fn index<V>(ar: Arith<V>, l: Lane<V>, r: Regs<V>, e: KirExpr) -> int
    decreases e,
{
    match e {
        KirExpr::ConstU32(u) => u as int,
        KirExpr::Gid => l.gid,
        KirExpr::Lid => l.lid,
        KirExpr::ForVar(id) => r.u[id],
        KirExpr::UVar(id) => r.u[id],
        KirExpr::Bin { op, a, b } => if *a is Var {
            (ar.to_index)((ar.binary)(op, value(ar, l, r, *a), value(ar, l, r, *b)))
        } else {
            index_op(op, index(ar, l, r, *a), index(ar, l, r, *b))
        },
        KirExpr::CastF32ToU32(a) => (ar.to_index)(value(ar, l, r, *a)),
        _ => arbitrary(),
    }
}

/// An element of an array of the group, as a thread sees it.
pub open spec fn shared_at<V>(l: Lane<V>, r: Regs<V>, id: u32, i: int) -> V {
    if r.writes.contains_key((id, i)) {
        r.writes[(id, i)]
    } else {
        l.shared[(id, i)]
    }
}

/// Whether all writes are to one device buffer.
pub open spec fn only_in<V>(stored: Map<(u32, int), V>, buf: u32) -> bool {
    forall|at: (u32, int)| #[trigger] stored.contains_key(at) ==> at.0 == buf
}

/// An element of a device buffer, as a thread sees it: what it has written there, if it has.
pub open spec fn device_at<V>(l: Lane<V>, r: Regs<V>, buf: u32, i: int) -> V {
    if r.stored.contains_key((buf, i)) {
        r.stored[(buf, i)]
    } else {
        (l.bufs)(buf, i)
    }
}

/// The value of an expression; that of an unsigned one is the float nearest to it. What is
/// no number is left open.
pub open spec fn value<V>(ar: Arith<V>, l: Lane<V>, r: Regs<V>, e: KirExpr) -> V
    decreases e,
{
    match e {
        KirExpr::ConstF32(s) => (ar.constant)(s),
        KirExpr::Var(id) => r.f[id],
        KirExpr::ConstU32(u) => (ar.of_index)(u as int),
        KirExpr::Gid => (ar.of_index)(l.gid),
        KirExpr::Lid => (ar.of_index)(l.lid),
        KirExpr::ForVar(id) => (ar.of_index)(r.u[id]),
        KirExpr::UVar(id) => (ar.of_index)(r.u[id]),
        KirExpr::Load { buf, idx, .. } => device_at(l, r, buf, index(ar, l, r, *idx)),
        KirExpr::VecMulSum { a_buf, a_idx, b_buf, b_idx, width, b_from_tg, .. } => {
            let i = index(ar, l, r, *a_idx);
            let j = index(ar, l, r, *b_idx);
            ar.dot(
                |n: int| (l.bufs)(a_buf, i + n),
                |n: int|
                    match b_from_tg {
                        Some(id) => shared_at(l, r, id, j + n),
                        None => (l.bufs)(b_buf, j + n),
                    },
                width as nat,
            )
        },
        KirExpr::TgLoad { id, idx } => shared_at(l, r, id, index(ar, l, r, *idx)),
        KirExpr::ThreadLoad { id, idx } => r.local[(id, index(ar, l, r, *idx))],
        KirExpr::Bin { op, a, b } => (ar.binary)(op, value(ar, l, r, *a), value(ar, l, r, *b)),
        KirExpr::Unary { op, a } => (ar.unary)(op, value(ar, l, r, *a)),
        KirExpr::CastU32ToF32(a) => (ar.of_index)(index(ar, l, r, *a)),
        KirExpr::Q4kCoopFrag { w_buf, row_base, ib, b_from_tg, x_buf, lane, .. } => {
            let at = index(ar, l, r, *row_base);
            let (i, n) = (index(ar, l, r, *ib), index(ar, l, r, *lane));
            part_of(ar, l, r, false, w_buf, at, i, b_from_tg, x_buf, 0, n)
        },
        KirExpr::Q6kCoopFrag { w_buf, row_base, ib, b_from_tg, x_buf, x_off, lane, .. } => {
            let at = index(ar, l, r, *row_base);
            let (i, n) = (index(ar, l, r, *ib), index(ar, l, r, *lane));
            part_of(ar, l, r, true, w_buf, at, i, b_from_tg, x_buf, index(ar, l, r, *x_off), n)
        },
        _ => arbitrary(),
    }
}

/// Whether a condition holds.
pub open spec fn holds<V>(ar: Arith<V>, l: Lane<V>, r: Regs<V>, e: KirExpr) -> bool {
    match e {
        KirExpr::CmpGt { a, b } => if is_index(*a) {
            index(ar, l, r, *a) > index(ar, l, r, *b)
        } else {
            (ar.above)(value(ar, l, r, *a), value(ar, l, r, *b))
        },
        KirExpr::CmpEq { a, b } => if is_index(*a) {
            index(ar, l, r, *a) == index(ar, l, r, *b)
        } else {
            (ar.same)(value(ar, l, r, *a), value(ar, l, r, *b))
        },
        _ => arbitrary(),
    }
}

/// `n` elements of a buffer from `at` on.
pub open spec fn row<V>(buf: u32, at: int, n: int, t: spec_fn(int) -> V) -> Map<(u32, int), V> {
    Map::new(
        |p: (u32, int)| p.0 == buf && at <= p.1 < at + n,
        |p: (u32, int)| t(p.1 - at),
    )
}

/// The elements of a packed block that starts at `at`.
pub open spec fn pack<V>(ar: Arith<V>, buf: u32, at: int, t: Seq<V>) -> Map<(u32, int), V> {
    row(buf, at, 32, |i: int| (ar.packed)(t, i))
}

/// A thread that has packed 32 elements of a device buffer.
pub open spec fn pack_device<V>(
    ar: Arith<V>,
    l: Lane<V>,
    dst: u32,
    at: int,
    src: u32,
    from: int,
    r: Regs<V>,
) -> Regs<V> {
    let t = Seq::new(32, |i: int| device_at(l, r, src, from + i));
    Regs { stored: r.stored.union_prefer_right(pack(ar, dst, at, t)), ..r }
}

/// A thread that has packed 32 elements of an array of its own.
pub open spec fn pack_local<V>(
    ar: Arith<V>,
    dst: u32,
    at: int,
    th: u32,
    from: int,
    r: Regs<V>,
) -> Regs<V> {
    let t = Seq::new(32, |i: int| r.local[(th, from + i)]);
    Regs { stored: r.stored.union_prefer_right(pack(ar, dst, at, t)), ..r }
}

/// What a lane adds for block `ib` of the row that begins at `base`.
pub open spec fn part_of<V>(
    ar: Arith<V>,
    l: Lane<V>,
    r: Regs<V>,
    q6: bool,
    w: u32,
    base: int,
    ib: int,
    from: Option<u32>,
    x_buf: u32,
    x_off: int,
    lane: int,
) -> V {
    (ar.part)(
        q6,
        Seq::new(256, |n: int| (l.bufs)(w, base + (256 * ib + n))),
        Seq::new(
            256,
            |n: int|
                match from {
                    Some(id) => shared_at(l, r, id, 256 * ib - x_off + n),
                    None => (l.bufs)(x_buf, 256 * ib + n),
                },
        ),
        lane,
    )
}

/// Four float variables with a gain each.
pub open spec fn four_gained<V>(
    ar: Arith<V>,
    f: Map<u32, V>,
    accs: [u32; 4],
    p: spec_fn(int) -> V,
) -> Map<u32, V> {
    let f1 = f.insert(accs[0], ar.sum(f[accs[0]], p(0)));
    let f2 = f1.insert(accs[1], ar.sum(f1[accs[1]], p(1)));
    let f3 = f2.insert(accs[2], ar.sum(f2[accs[2]], p(2)));
    f3.insert(accs[3], ar.sum(f3[accs[3]], p(3)))
}

/// A statement without a block, for one thread. Dequantised copies are left open.
pub open spec fn flat<V>(ar: Arith<V>, l: Lane<V>, s: KirStmt, r: Regs<V>) -> Regs<V> {
    match s {
        KirStmt::Let { id, expr } => Regs { f: r.f.insert(id, value(ar, l, r, expr)), ..r },
        KirStmt::Assign { id, expr } => Regs { f: r.f.insert(id, value(ar, l, r, expr)), ..r },
        KirStmt::LetU32 { id, expr } => Regs { u: r.u.insert(id, index(ar, l, r, expr)), ..r },
        KirStmt::Store { buf, idx, val } => Regs {
            stored: r.stored.insert((buf, index(ar, l, r, idx)), value(ar, l, r, val)),
            ..r
        },
        KirStmt::TgStore { id, idx, val } => Regs {
            writes: r.writes.insert((id, index(ar, l, r, idx)), value(ar, l, r, val)),
            ..r
        },
        KirStmt::ThreadStore { id, idx, val } => Regs {
            local: r.local.insert((id, index(ar, l, r, idx)), value(ar, l, r, val)),
            ..r
        },
        KirStmt::TgStoreF4FromLoad { tg_id, tg_off, src_buf, src_elem, .. } => {
            let to = index(ar, l, r, tg_off);
            let from = index(ar, l, r, src_elem);
            Regs {
                writes: r.writes.insert((tg_id, to), (l.bufs)(src_buf, from)).insert(
                    (tg_id, to + 1),
                    (l.bufs)(src_buf, from + 1),
                ).insert((tg_id, to + 2), (l.bufs)(src_buf, from + 2)).insert(
                    (tg_id, to + 3),
                    (l.bufs)(src_buf, from + 3),
                ),
                ..r
            }
        },
        KirStmt::Q4kCoopNr4 { w_buf, row0_base, cols, ib, b_from_tg, x_buf, lane, acc_ids } => {
            let (at, i, n) = (
                index(ar, l, r, row0_base),
                index(ar, l, r, ib),
                index(ar, l, r, lane),
            );
            let p = |j: int|
                part_of(ar, l, r, false, w_buf, at + j * cols, i, b_from_tg, x_buf, 0, n);
            Regs { f: four_gained(ar, r.f, acc_ids, p), ..r }
        },
        KirStmt::Q4kCoopNr4Dual { row0_base, cols, ib, b_from_tg, x_buf, lane, acc_g, acc_u } => {
            let (at, i, n) = (
                index(ar, l, r, row0_base),
                index(ar, l, r, ib),
                index(ar, l, r, lane),
            );
            let p = |j: int|
                part_of(ar, l, r, false, 0, at + j * cols, i, b_from_tg, x_buf, 0, n);
            let q = |j: int|
                part_of(ar, l, r, false, 1, at + j * cols, i, b_from_tg, x_buf, 0, n);
            Regs { f: four_gained(ar, four_gained(ar, r.f, acc_g, p), acc_u, q), ..r }
        },
        KirStmt::Q6kCoopNr4 {
            w_buf,
            row0_base,
            cols,
            ib,
            b_from_tg,
            x_buf,
            x_off,
            lane,
            acc_ids,
        } => {
            let (at, i, n) = (
                index(ar, l, r, row0_base),
                index(ar, l, r, ib),
                index(ar, l, r, lane),
            );
            let o = index(ar, l, r, x_off);
            let p = |j: int|
                part_of(ar, l, r, true, w_buf, at + j * cols, i, b_from_tg, x_buf, o, n);
            Regs { f: four_gained(ar, r.f, acc_ids, p), ..r }
        },
        KirStmt::Q40PackBlock { dst_buf, block, src_buf, src_elem } => {
            let from = index(ar, l, r, src_elem);
            pack_device(ar, l, dst_buf, 32 * index(ar, l, r, block), src_buf, from, r)
        },
        KirStmt::Q40PackFromThread { dst_buf, block, th_id, th_off } => {
            let from = index(ar, l, r, th_off);
            pack_local(ar, dst_buf, 32 * index(ar, l, r, block), th_id, from, r)
        },
        KirStmt::TgDeclF32 { .. } | KirStmt::ThreadDeclF32 { .. } => r,
        _ => arbitrary(),
    }
}

/// How far a loop variable is from the end of its range.
pub open spec fn left(i: int) -> nat {
    if i < 0x1_0000_0000 {
        (0x1_0000_0000 - i) as nat
    } else {
        0
    }
}

/// The turns of a loop over a range that a thread still takes. A loop that does not come forward is
/// left open.
pub open spec fn turns<V>(ar: Arith<V>, l: Lane<V>, c: Code, r: Regs<V>) -> Regs<V>
    decreases c, 0nat, (match c {
        Code::ForRange { id, .. } => left(r.u[id]),
        _ => 0,
    }),
{
    match c {
        Code::ForRange { id, limit_off, bound, step, body } => {
            if wrap(r.u[id] + index(ar, l, r, limit_off)) < index(ar, l, r, bound) {
                let b = run_to(ar, l, body, body.len(), r);
                let at = wrap(b.u[id] + index(ar, l, b, step));
                let next = Regs { u: b.u.insert(id, at), ..b };
                if r.u[id] < at {
                    turns(ar, l, c, next)
                } else {
                    arbitrary()
                }
            } else {
                r
            }
        },
        _ => arbitrary(),
    }
}

/// `n` turns of a counted loop.
pub open spec fn counted<V>(ar: Arith<V>, l: Lane<V>, c: Code, n: nat, r: Regs<V>) -> Regs<V>
    decreases c, 0nat, n,
{
    match c {
        Code::For { id, body, .. } => if n == 0 {
            r
        } else {
            let p = counted(ar, l, c, (n - 1) as nat, r);
            run_to(ar, l, body, body.len(), Regs { u: p.u.insert(id, n - 1), ..p })
        },
        _ => arbitrary(),
    }
}

/// A statement, for one thread.
pub open spec fn step<V>(ar: Arith<V>, l: Lane<V>, c: Code, r: Regs<V>) -> Regs<V>
    decreases c, 1nat, 0nat,
{
    match c {
        Code::Flat(s) => flat(ar, l, s, r),
        Code::If { cond, body } => if holds(ar, l, r, cond) {
            run_to(ar, l, body, body.len(), r)
        } else {
            r
        },
        Code::ForRange { .. } => turns(ar, l, c, r),
        Code::For { n, .. } => counted(ar, l, c, n as nat, r),
    }
}

/// The first `k` statements of a block, for one thread.
pub open spec fn run_to<V>(ar: Arith<V>, l: Lane<V>, b: Seq<Code>, k: nat, r: Regs<V>) -> Regs<V>
    decreases b, 0nat, k,
{
    if k == 0 || k > b.len() {
        r
    } else {
        step(ar, l, b[k - 1], run_to(ar, l, b, (k - 1) as nat, r))
    }
}

/// A block, for one thread.
pub open spec fn run<V>(ar: Arith<V>, l: Lane<V>, b: Seq<Code>, r: Regs<V>) -> Regs<V> {
    run_to(ar, l, b, b.len(), r)
}

proof fn lemma_run_to_prefix<V>(
    ar: Arith<V>,
    l: Lane<V>,
    b: Seq<Code>,
    d: Seq<Code>,
    k: nat,
    r: Regs<V>,
)
    requires
        k <= b.len(),
        k <= d.len(),
        forall|i: int| 0 <= i < k ==> b[i] == d[i],
    ensures
        run_to(ar, l, b, k, r) == run_to(ar, l, d, k, r),
    decreases k,
{
    if k > 0 {
        lemma_run_to_prefix(ar, l, b, d, (k - 1) as nat, r);
    }
}

/// One more statement is one more step.
pub proof fn lemma_run_push<V>(ar: Arith<V>, l: Lane<V>, b: Seq<Code>, c: Code, r: Regs<V>)
    ensures
        run(ar, l, b.push(c), r) == step(ar, l, c, run(ar, l, b, r)),
{
    lemma_run_to_prefix(ar, l, b, b.push(c), b.len(), r);
}

/// A block of one statement.
pub proof fn lemma_run_one<V>(ar: Arith<V>, l: Lane<V>, c: Code, r: Regs<V>)
    ensures
        run(ar, l, Seq::empty().push(c), r) == step(ar, l, c, r),
{
    lemma_run_push(ar, l, Seq::empty(), c, r);
}

/// A group of threads: its arrays, its threads, and what it has written to device buffers.
pub ghost struct Group<V> {
    pub shared: Map<(u32, int), V>,
    pub regs: Seq<Regs<V>>,
    pub stored: Map<(u32, int), V>,
}

/// A thread that holds nothing yet.
pub open spec fn blank<V>() -> Regs<V> {
    Regs {
        f: Map::empty(),
        u: Map::empty(),
        local: Map::empty(),
        writes: Map::empty(),
        stored: Map::empty(),
    }
}

/// A group of `tg` threads at its start.
pub open spec fn fresh_group<V>(tg: nat) -> Group<V> {
    Group { shared: Map::empty(), regs: Seq::new(tg, |i: int| blank()), stored: Map::empty() }
}

/// What the first `n` threads have written to arrays of the group, the later ones on top.
pub open spec fn collected<V>(m: Map<(u32, int), V>, regs: Seq<Regs<V>>, n: nat) -> Map<
    (u32, int),
    V,
>
    decreases n,
{
    if n == 0 || n > regs.len() {
        m
    } else {
        collected(m, regs, (n - 1) as nat).union_prefer_right(regs[n - 1].writes)
    }
}

/// What the first `n` threads have written to device buffers, the later ones on top.
pub open spec fn device_writes<V>(m: Map<(u32, int), V>, regs: Seq<Regs<V>>, n: nat) -> Map<
    (u32, int),
    V,
>
    decreases n,
{
    if n == 0 || n > regs.len() {
        m
    } else {
        device_writes(m, regs, (n - 1) as nat).union_prefer_right(regs[n - 1].stored)
    }
}

/// A float variable of the first `n` threads, added up.
pub open spec fn total<V>(ar: Arith<V>, regs: Seq<Regs<V>>, id: u32, n: nat) -> V
    decreases n,
{
    if n == 0 {
        ar.zero()
    } else {
        ar.sum(total(ar, regs, id, (n - 1) as nat), regs[n - 1].f[id])
    }
}

/// A thread of a group.
pub open spec fn lane<V>(gid: int, bufs: spec_fn(u32, int) -> V, g: Group<V>, i: int) -> Lane<V> {
    Lane { gid, lid: i, bufs, shared: g.shared }
}

/// A group that has seen what its threads wrote.
pub open spec fn seen<V>(after: Seq<Regs<V>>, g: Group<V>) -> Group<V> {
    Group {
        shared: collected(g.shared, after, after.len()),
        regs: Seq::new(
            after.len(),
            |i: int| Regs { writes: Map::empty(), stored: Map::empty(), ..after[i] },
        ),
        stored: device_writes(g.stored, after, after.len()),
    }
}

/// Each thread takes a statement by itself; then the group sees what they wrote.
pub open spec fn apart<V>(
    ar: Arith<V>,
    gid: int,
    bufs: spec_fn(u32, int) -> V,
    c: Code,
    g: Group<V>,
) -> Group<V> {
    seen(
        Seq::new(g.regs.len(), |i: int| step(ar, lane(gid, bufs, g, i), c, g.regs[i])),
        g,
    )
}

/// Whether a statement without a block takes all threads of a group together.
pub open spec fn joins(s: KirStmt) -> bool {
    match s {
        KirStmt::ThreadgroupReduce { .. } | KirStmt::ThreadgroupArgmax { .. } | KirStmt::Barrier => {
            true
        },
        KirStmt::Assign { expr, .. } => expr is SimdSum,
        _ => false,
    }
}

/// Whether threads wait for each other in a block.
pub open spec fn waits(b: Seq<Code>) -> bool {
    exists|i: int| 0 <= i < b.len() && #[trigger] b[i] == Code::Flat(KirStmt::Barrier)
}

/// Whether the threads of a group meet in a statement.
pub open spec fn meets(c: Code) -> bool
    decreases c, 1nat, 0nat,
{
    match c {
        Code::Flat(s) => joins(s),
        Code::If { body, .. } => block_meets(body, body.len()),
        Code::ForRange { body, .. } => waits(body),
        _ => false,
    }
}

/// Whether the threads of a group meet in one of the first `k` statements.
pub open spec fn block_meets(b: Seq<Code>, k: nat) -> bool
    decreases b, 0nat, k,
{
    if k == 0 || k > b.len() {
        false
    } else {
        meets(b[k - 1]) || block_meets(b, (k - 1) as nat)
    }
}

/// An expression of `n` threads from `from` on, added up.
pub open spec fn simd_total<V>(
    ar: Arith<V>,
    gid: int,
    bufs: spec_fn(u32, int) -> V,
    e: KirExpr,
    g: Group<V>,
    from: int,
    n: nat,
) -> V
    decreases n,
{
    if n == 0 {
        ar.zero()
    } else {
        ar.sum(
            simd_total(ar, gid, bufs, e, g, from, (n - 1) as nat),
            value(ar, lane(gid, bufs, g, from + n - 1), g.regs[from + n - 1], e),
        )
    }
}

/// The largest value that one of the first `n` threads holds in `val`, and what that thread holds
/// in `idx`; of equal values the one with the smaller index counts.
pub open spec fn best_of<V>(ar: Arith<V>, regs: Seq<Regs<V>>, val: u32, idx: u32, n: nat) -> (V, V)
    decreases n,
{
    if n <= 1 {
        (regs[0].f[val], regs[0].f[idx])
    } else {
        let b = best_of(ar, regs, val, idx, (n - 1) as nat);
        let (x, i) = (regs[n - 1].f[val], regs[n - 1].f[idx]);
        if (ar.above)(x, b.0) || ((ar.same)(x, b.0) && (ar.to_index)(i) < (ar.to_index)(b.1)) {
            (x, i)
        } else {
            b
        }
    }
}

/// A statement without a block that takes all threads together.
pub open spec fn joint<V>(
    ar: Arith<V>,
    gid: int,
    bufs: spec_fn(u32, int) -> V,
    s: KirStmt,
    g: Group<V>,
) -> Group<V> {
    match s {
        KirStmt::ThreadgroupReduce { acc_id, .. } => {
            let t = total(ar, g.regs, acc_id, g.regs.len());
            Group {
                regs: Seq::new(
                    g.regs.len(),
                    |i: int| Regs { f: g.regs[i].f.insert(acc_id, t), ..g.regs[i] },
                ),
                ..g
            }
        },
        KirStmt::ThreadgroupArgmax { val_id, idx_id, .. } => {
            let b = best_of(ar, g.regs, val_id, idx_id, g.regs.len());
            Group {
                regs: Seq::new(
                    g.regs.len(),
                    |i: int|
                        Regs {
                            f: g.regs[i].f.insert(val_id, b.0).insert(idx_id, b.1),
                            ..g.regs[i]
                        },
                ),
                ..g
            }
        },
        KirStmt::Assign { id, expr: KirExpr::SimdSum(e) } => Group {
            regs: Seq::new(
                g.regs.len(),
                |i: int|
                    Regs {
                        f: g.regs[i].f.insert(
                            id,
                            simd_total(ar, gid, bufs, *e, g, i / 32 * 32, 32),
                        ),
                        ..g.regs[i]
                    },
            ),
            ..g
        },
        KirStmt::Barrier => g,
        _ => arbitrary(),
    }
}

/// The turns of a loop that the threads of a group take together; the first thread's range counts.
pub open spec fn group_turns<V>(
    ar: Arith<V>,
    gid: int,
    bufs: spec_fn(u32, int) -> V,
    c: Code,
    g: Group<V>,
) -> Group<V>
    decreases c, 0nat, (match c {
        Code::ForRange { id, .. } => left(g.regs[0].u[id]),
        _ => 0,
    }),
{
    match c {
        Code::ForRange { id, limit_off, bound, step, body } => {
            let l = lane(gid, bufs, g, 0);
            let r = g.regs[0];
            if wrap(r.u[id] + index(ar, l, r, limit_off)) < index(ar, l, r, bound) {
                let b = group_run_to(ar, gid, bufs, body, body.len(), g);
                let next = Group {
                    regs: Seq::new(
                        b.regs.len(),
                        |i: int|
                            Regs {
                                u: b.regs[i].u.insert(
                                    id,
                                    wrap(
                                        b.regs[i].u[id] + index(
                                            ar,
                                            lane(gid, bufs, b, i),
                                            b.regs[i],
                                            step,
                                        ),
                                    ),
                                ),
                                ..b.regs[i]
                            },
                    ),
                    ..b
                };
                if b.regs.len() > 0 && r.u[id] < next.regs[0].u[id] {
                    group_turns(ar, gid, bufs, c, next)
                } else {
                    arbitrary()
                }
            } else {
                g
            }
        },
        _ => arbitrary(),
    }
}

/// Whether threads meet in a block only to add up over simdgroups.
pub open spec fn simd_only(b: Seq<Code>) -> bool {
    forall|i: int| 0 <= i < b.len() && meets(#[trigger] b[i]) ==> adds_up(b[i])
}

/// Whether a statement adds up over simdgroups.
pub open spec fn adds_up(c: Code) -> bool {
    match c {
        Code::Flat(KirStmt::Assign { expr, .. }) => expr is SimdSum,
        _ => false,
    }
}

/// A statement that only some threads take, whole simdgroups of them.
pub open spec fn masked_step<V>(
    ar: Arith<V>,
    gid: int,
    bufs: spec_fn(u32, int) -> V,
    mask: spec_fn(int) -> bool,
    c: Code,
    g: Group<V>,
) -> Group<V> {
    match c {
        Code::Flat(s) if adds_up(c) => Group {
            regs: Seq::new(
                g.regs.len(),
                |i: int|
                    if mask(i) {
                        joint(ar, gid, bufs, s, g).regs[i]
                    } else {
                        g.regs[i]
                    },
            ),
            ..g
        },
        _ => seen(
            Seq::new(
                g.regs.len(),
                |i: int|
                    if mask(i) {
                        step(ar, lane(gid, bufs, g, i), c, g.regs[i])
                    } else {
                        g.regs[i]
                    },
            ),
            g,
        ),
    }
}

/// The first `k` statements of a block that only some threads take, whole simdgroups of them.
pub open spec fn masked_to<V>(
    ar: Arith<V>,
    gid: int,
    bufs: spec_fn(u32, int) -> V,
    mask: spec_fn(int) -> bool,
    b: Seq<Code>,
    k: nat,
    g: Group<V>,
) -> Group<V>
    decreases k,
{
    if k == 0 || k > b.len() {
        g
    } else {
        masked_step(
            ar,
            gid,
            bufs,
            mask,
            b[k - 1],
            masked_to(ar, gid, bufs, mask, b, (k - 1) as nat, g),
        )
    }
}

/// A statement, for a group. Where threads meet under a condition only to add up over simdgroups,
/// each simdgroup has its own; else the condition is that of the first thread.
pub open spec fn group_step<V>(
    ar: Arith<V>,
    gid: int,
    bufs: spec_fn(u32, int) -> V,
    c: Code,
    g: Group<V>,
) -> Group<V>
    decreases c, 1nat, 0nat,
{
    if meets(c) {
        match c {
            Code::Flat(s) => joint(ar, gid, bufs, s, g),
            Code::If { cond, body } => if simd_only(body) {
                let mask = |i: int| holds(ar, lane(gid, bufs, g, i), g.regs[i], cond);
                masked_to(ar, gid, bufs, mask, body, body.len(), g)
            } else if holds(ar, lane(gid, bufs, g, 0), g.regs[0], cond) {
                group_run_to(ar, gid, bufs, body, body.len(), g)
            } else {
                g
            },
            Code::ForRange { .. } => group_turns(ar, gid, bufs, c, g),
            _ => arbitrary(),
        }
    } else {
        apart(ar, gid, bufs, c, g)
    }
}

/// The first `k` statements of a block, for a group.
pub open spec fn group_run_to<V>(
    ar: Arith<V>,
    gid: int,
    bufs: spec_fn(u32, int) -> V,
    b: Seq<Code>,
    k: nat,
    g: Group<V>,
) -> Group<V>
    decreases b, 0nat, k,
{
    if k == 0 || k > b.len() {
        g
    } else {
        group_step(ar, gid, bufs, b[k - 1], group_run_to(ar, gid, bufs, b, (k - 1) as nat, g))
    }
}

/// A block, for a group.
pub open spec fn group_run<V>(
    ar: Arith<V>,
    gid: int,
    bufs: spec_fn(u32, int) -> V,
    b: Seq<Code>,
    g: Group<V>,
) -> Group<V> {
    group_run_to(ar, gid, bufs, b, b.len(), g)
}

proof fn lemma_group_prefix<V>(
    ar: Arith<V>,
    gid: int,
    bufs: spec_fn(u32, int) -> V,
    b: Seq<Code>,
    d: Seq<Code>,
    k: nat,
    g: Group<V>,
)
    requires
        k <= b.len(),
        k <= d.len(),
        forall|i: int| 0 <= i < k ==> b[i] == d[i],
    ensures
        group_run_to(ar, gid, bufs, b, k, g) == group_run_to(ar, gid, bufs, d, k, g),
    decreases k,
{
    if k > 0 {
        lemma_group_prefix(ar, gid, bufs, b, d, (k - 1) as nat, g);
    }
}

/// One more statement is one more step of the group.
pub proof fn lemma_group_push<V>(
    ar: Arith<V>,
    gid: int,
    bufs: spec_fn(u32, int) -> V,
    b: Seq<Code>,
    c: Code,
    g: Group<V>,
)
    ensures
        group_run(ar, gid, bufs, b.push(c), g) == group_step(
            ar,
            gid,
            bufs,
            c,
            group_run(ar, gid, bufs, b, g),
        ),
{
    lemma_group_prefix(ar, gid, bufs, b, b.push(c), b.len(), g);
}

} // verus!
