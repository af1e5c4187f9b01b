use std::collections::HashMap;

use ksearch::codegen::beam::{beam_matvec_candidates, beam_matvec_q4k_candidates};
use ksearch::codegen::lower::matvec::validate_sched;
use ksearch::codegen::pipeline::kernel_ir;
use ksearch::ir::dtype::{matrix_shape, vector_shape, DType, IrError, Scalar, TensorId};
use ksearch::ir::graph::Graph;
use ksearch::ir::kernel::{
    BinOp, KernelIr, KirExpr, KirLaunch, KirStmt, OptSchedule, UnaryOp,
};
use ksearch::kernels::kernel::Kernel;

/// A group of threads that take every statement together.
struct Group<'a> {
    gid: u32,
    bufs: &'a mut Vec<Vec<f64>>,
    shared: HashMap<(u32, u32), f64>,
    f: Vec<HashMap<u32, f64>>,
    u: Vec<HashMap<u32, u32>>,
    local: Vec<HashMap<(u32, u32), f64>>,
}

fn number(s: Scalar) -> f64 {
    match s {
        Scalar::Bits(b) => f32::from_bits(b) as f64,
        Scalar::Int(n) => n as f64,
        Scalar::RecipInt(n) => 1.0 / n as f64,
        Scalar::RecipBits(b) => 1.0 / f32::from_bits(b) as f64,
    }
}

fn is_index(e: &KirExpr) -> bool {
    match e {
        KirExpr::ConstU32(_)
        | KirExpr::Gid
        | KirExpr::Lid
        | KirExpr::ForVar(_)
        | KirExpr::UVar(_)
        | KirExpr::CastF32ToU32(_) => true,
        KirExpr::Bin { a, .. } => is_index(a),
        _ => false,
    }
}

impl Group<'_> {
    fn index(&self, e: &KirExpr, lane: usize, on: &[bool]) -> u32 {
        match e {
            KirExpr::ConstU32(u) => *u,
            KirExpr::Gid => self.gid,
            KirExpr::Lid => lane as u32,
            KirExpr::ForVar(id) | KirExpr::UVar(id) => self.u[lane][id],
            KirExpr::Bin { op, a, b } => {
                let (x, y) = (self.index(a, lane, on), self.index(b, lane, on));
                match op {
                    BinOp::Add => x.wrapping_add(y),
                    BinOp::Sub => x.wrapping_sub(y),
                    BinOp::Mul => x.wrapping_mul(y),
                    BinOp::Div => x / y,
                    BinOp::Max => x.max(y),
                    BinOp::Min => x.min(y),
                }
            }
            KirExpr::CastF32ToU32(a) => self.value(a, lane, on) as u32,
            other => self.value(other, lane, on) as u32,
        }
    }

    fn value(&self, e: &KirExpr, lane: usize, on: &[bool]) -> f64 {
        match e {
            KirExpr::ConstF32(s) => number(*s),
            KirExpr::Var(id) => self.f[lane][id],
            KirExpr::Load { buf, idx, .. } => {
                self.bufs[*buf as usize][self.index(idx, lane, on) as usize]
            }
            KirExpr::VecMulSum { a_buf, a_idx, b_buf, b_idx, width, b_from_tg, .. } => {
                let (i, j) = (self.index(a_idx, lane, on), self.index(b_idx, lane, on));
                (0..*width)
                    .map(|n| {
                        let a = self.bufs[*a_buf as usize][(i + n) as usize];
                        let b = match b_from_tg {
                            Some(t) => self.shared[&(*t, j + n)],
                            None => self.bufs[*b_buf as usize][(j + n) as usize],
                        };
                        a * b
                    })
                    .sum()
            }
            KirExpr::TgLoad { id, idx } => self.shared[&(*id, self.index(idx, lane, on))],
            KirExpr::ThreadLoad { id, idx } => self.local[lane][&(*id, self.index(idx, lane, on))],
            KirExpr::SimdSum(a) => {
                let from = lane / 32 * 32;
                (from..(from + 32).min(on.len()))
                    .filter(|i| on[*i])
                    .map(|i| self.value(a, i, on))
                    .sum()
            }
            KirExpr::Bin { op, a, b } if !is_index(a) => {
                let (x, y) = (self.value(a, lane, on), self.value(b, lane, on));
                match op {
                    BinOp::Add => x + y,
                    BinOp::Sub => x - y,
                    BinOp::Mul => x * y,
                    BinOp::Div => x / y,
                    BinOp::Max => x.max(y),
                    BinOp::Min => x.min(y),
                }
            }
            KirExpr::Unary { op, a } => {
                let x = self.value(a, lane, on);
                match op {
                    UnaryOp::Neg => -x,
                    UnaryOp::Exp => x.exp(),
                    UnaryOp::Tanh => x.tanh(),
                    UnaryOp::Rsqrt => 1.0 / x.sqrt(),
                    UnaryOp::Sqrt => x.sqrt(),
                    UnaryOp::Floor => x.floor(),
                }
            }
            KirExpr::CastU32ToF32(a) => self.index(a, lane, on) as f64,
            KirExpr::Q4kCoopFrag { w_buf, row_base, ib, b_from_tg, x_buf, lane: n, .. } => {
                let at = self.index(row_base, lane, on);
                let (i, n) = (self.index(ib, lane, on), self.index(n, lane, on));
                self.part(*w_buf, at, i, *b_from_tg, *x_buf, share_of(false, n))
            }
            KirExpr::Q6kCoopFrag { w_buf, row_base, ib, b_from_tg, x_buf, lane: n, .. } => {
                let at = self.index(row_base, lane, on);
                let (i, n) = (self.index(ib, lane, on), self.index(n, lane, on));
                self.part(*w_buf, at, i, *b_from_tg, *x_buf, share_of(true, n))
            }
            other if is_index(other) => self.index(other, lane, on) as f64,
            other => panic!("{other:?}"),
        }
    }

    /// The products of some elements of block `ib` of the row that begins at `base`, added up.
    fn part(
        &self,
        w: u32,
        base: u32,
        ib: u32,
        from: Option<u32>,
        x_buf: u32,
        elements: std::ops::Range<u32>,
    ) -> f64 {
        elements
            .map(|n| {
                let k = 256 * ib + n;
                let x = match from {
                    Some(t) => self.shared[&(t, k)],
                    None => self.bufs[x_buf as usize][k as usize],
                };
                self.bufs[w as usize][(base + k) as usize] * x
            })
            .sum()
    }

    /// Adds what lane `i` has for four rows of a matrix to four variables.
    fn four_rows(
        &mut self,
        i: usize,
        q6: bool,
        w: u32,
        at: [u32; 4],
        ib: u32,
        from: Option<u32>,
        x_buf: u32,
        lane: u32,
        accs: &[u32; 4],
    ) {
        for (base, acc) in at.iter().zip(accs) {
            let x = self.part(w, *base, ib, from, x_buf, share_of(q6, lane));
            *self.f[i].get_mut(acc).unwrap() += x;
        }
    }

    fn holds(&self, e: &KirExpr, lane: usize, on: &[bool]) -> bool {
        match e {
            KirExpr::CmpGt { a, b } if is_index(a) => {
                self.index(a, lane, on) > self.index(b, lane, on)
            }
            KirExpr::CmpGt { a, b } => self.value(a, lane, on) > self.value(b, lane, on),
            KirExpr::CmpEq { a, b } if is_index(a) => {
                self.index(a, lane, on) == self.index(b, lane, on)
            }
            KirExpr::CmpEq { a, b } => self.value(a, lane, on) == self.value(b, lane, on),
            other => panic!("{other:?}"),
        }
    }

    fn lanes(on: &[bool]) -> Vec<usize> {
        (0..on.len()).filter(|i| on[*i]).collect()
    }

    fn run(&mut self, body: &[KirStmt], on: &[bool]) {
        for s in body {
            self.step(s, on);
        }
    }

    fn step(&mut self, s: &KirStmt, on: &[bool]) {
        let lanes = Self::lanes(on);
        match s {
            KirStmt::Let { id, expr } | KirStmt::Assign { id, expr } => {
                let v: Vec<f64> = lanes.iter().map(|i| self.value(expr, *i, on)).collect();
                for (i, x) in lanes.iter().zip(v) {
                    self.f[*i].insert(*id, x);
                }
            }
            KirStmt::LetU32 { id, expr } => {
                let v: Vec<u32> = lanes.iter().map(|i| self.index(expr, *i, on)).collect();
                for (i, x) in lanes.iter().zip(v) {
                    self.u[*i].insert(*id, x);
                }
            }
            KirStmt::ForRange { id, limit_off, bound, step, body } => loop {
                let go: Vec<bool> = (0..on.len())
                    .map(|i| {
                        on[i]
                            && self.u[i][id].wrapping_add(self.index(limit_off, i, on))
                                < self.index(bound, i, on)
                    })
                    .collect();
                if !go.contains(&true) {
                    break;
                }
                self.run(body, &go);
                for i in Self::lanes(&go) {
                    let by = self.index(step, i, &go);
                    let at = self.u[i][id].wrapping_add(by);
                    self.u[i].insert(*id, at);
                }
            },
            KirStmt::For { id, n, body } => {
                for k in 0..*n {
                    for i in &lanes {
                        self.u[*i].insert(*id, k as u32);
                    }
                    self.run(body, on);
                }
            }
            KirStmt::If { cond, body } => {
                let go: Vec<bool> =
                    (0..on.len()).map(|i| on[i] && self.holds(cond, i, on)).collect();
                if go.contains(&true) {
                    self.run(body, &go);
                }
            }
            KirStmt::Store { buf, idx, val } => {
                for i in lanes {
                    let (at, x) = (self.index(idx, i, on), self.value(val, i, on));
                    self.bufs[*buf as usize][at as usize] = x;
                }
            }
            KirStmt::TgStore { id, idx, val } => {
                for i in lanes {
                    let (at, x) = (self.index(idx, i, on), self.value(val, i, on));
                    self.shared.insert((*id, at), x);
                }
            }
            KirStmt::ThreadStore { id, idx, val } => {
                for i in lanes {
                    let (at, x) = (self.index(idx, i, on), self.value(val, i, on));
                    self.local[i].insert((*id, at), x);
                }
            }
            KirStmt::TgStoreF4FromLoad { tg_id, tg_off, src_buf, src_elem, .. } => {
                for i in lanes {
                    let (to, from) = (self.index(tg_off, i, on), self.index(src_elem, i, on));
                    for k in 0..4 {
                        let x = self.bufs[*src_buf as usize][(from + k) as usize];
                        self.shared.insert((*tg_id, to + k), x);
                    }
                }
            }
            KirStmt::Q4kCoopNr4 { w_buf, row0_base, cols, ib, b_from_tg, x_buf, lane, acc_ids } => {
                for i in lanes {
                    let at = rows_from(self.index(row0_base, i, on), *cols);
                    let (b, n) = (self.index(ib, i, on), self.index(lane, i, on));
                    self.four_rows(i, false, *w_buf, at, b, *b_from_tg, *x_buf, n, acc_ids);
                }
            }
            KirStmt::Q4kCoopNr4Dual {
                row0_base,
                cols,
                ib,
                b_from_tg,
                x_buf,
                lane,
                acc_g,
                acc_u,
            } => {
                for i in lanes {
                    let at = rows_from(self.index(row0_base, i, on), *cols);
                    let (b, n) = (self.index(ib, i, on), self.index(lane, i, on));
                    self.four_rows(i, false, 0, at, b, *b_from_tg, *x_buf, n, acc_g);
                    self.four_rows(i, false, 1, at, b, *b_from_tg, *x_buf, n, acc_u);
                }
            }
            KirStmt::Q6kCoopNr4 {
                w_buf,
                row0_base,
                cols,
                ib,
                b_from_tg,
                x_buf,
                lane,
                acc_ids,
                ..
            } => {
                for i in lanes {
                    let at = rows_from(self.index(row0_base, i, on), *cols);
                    let (b, n) = (self.index(ib, i, on), self.index(lane, i, on));
                    self.four_rows(i, true, *w_buf, at, b, *b_from_tg, *x_buf, n, acc_ids);
                }
            }
            KirStmt::Q40PackBlock { dst_buf, block, src_buf, src_elem } => {
                for i in lanes {
                    let from = self.index(src_elem, i, on) as usize;
                    let t = packed(&self.bufs[*src_buf as usize][from..from + 32]);
                    let to = 32 * self.index(block, i, on) as usize;
                    self.bufs[*dst_buf as usize][to..to + 32].copy_from_slice(&t);
                }
            }
            KirStmt::Q40PackFromThread { dst_buf, block, th_id, th_off } => {
                for i in lanes {
                    let from = self.index(th_off, i, on);
                    let t: Vec<f64> =
                        (0..32).map(|k| self.local[i][&(*th_id, from + k)]).collect();
                    let to = 32 * self.index(block, i, on) as usize;
                    self.bufs[*dst_buf as usize][to..to + 32].copy_from_slice(&packed(&t));
                }
            }
            KirStmt::ThreadgroupReduce { acc_id, .. } => {
                let total: f64 = lanes.iter().map(|i| self.f[*i][acc_id]).sum();
                for i in lanes {
                    self.f[i].insert(*acc_id, total);
                }
            }
            KirStmt::ThreadgroupArgmax { val_id, idx_id, .. } => {
                let mut best = (f64::NEG_INFINITY, 0.0);
                for i in &lanes {
                    let (x, at) = (self.f[*i][val_id], self.f[*i][idx_id]);
                    if x > best.0 || (x == best.0 && at < best.1) {
                        best = (x, at);
                    }
                }
                for i in lanes {
                    self.f[i].insert(*val_id, best.0);
                    self.f[i].insert(*idx_id, best.1);
                }
            }
            KirStmt::TgDeclF32 { .. } | KirStmt::ThreadDeclF32 { .. } | KirStmt::Barrier => {}
            other => panic!("{other:?}"),
        }
    }
}

/// The elements of a block of 256 that fall to a lane: eight lanes share a block of Q4_K, sixteen
/// one of Q6_K.
fn share_of(q6: bool, lane: u32) -> std::ops::Range<u32> {
    if q6 {
        16 * (lane / 2)..16 * (lane / 2) + 16
    } else {
        32 * (lane % 8)..32 * (lane % 8) + 32
    }
}

/// Where four rows begin.
fn rows_from(base: u32, cols: u32) -> [u32; 4] {
    [base, base + cols, base + 2 * cols, base + 3 * cols]
}

/// Values of a block, as multiples of one sixteenth of the largest of them.
fn packed(block: &[f64]) -> Vec<f64> {
    let d = block.iter().fold(0.0f64, |m, x| m.max(x.abs())) / 16.0;
    block.iter().map(|x| (x / d).round() * d).collect()
}

/// Runs a whole kernel and returns its outputs.
fn launch(k: &KernelIr, ins: &[Vec<f64>], outs: &[usize]) -> Vec<Vec<f64>> {
    assert_eq!(k.n_inputs, ins.len());
    assert_eq!(k.n_outputs, outs.len());
    let mut bufs: Vec<Vec<f64>> = ins.to_vec();
    bufs.extend(outs.iter().map(|n| vec![f64::NAN; *n]));
    let (groups, threads) = match k.launch {
        KirLaunch::Elementwise { n } => (n, 1),
        KirLaunch::Rows { rows } => (rows, 1),
        KirLaunch::RowsParallel { rows, tg } => (rows, tg as usize),
        KirLaunch::RowsParallelSg { rows, nsg } => (rows, 32 * nsg as usize),
    };
    for gid in 0..groups {
        let mut g = Group {
            gid: gid as u32,
            bufs: &mut bufs,
            shared: HashMap::new(),
            f: vec![HashMap::new(); threads],
            u: vec![HashMap::new(); threads],
            local: vec![HashMap::new(); threads],
        };
        g.run(&k.body, &vec![true; threads]);
    }
    bufs.split_off(ins.len())
}

fn lowered(g: &Graph, out: Result<TensorId, IrError>, sched: OptSchedule) -> KernelIr {
    let out = match out {
        Ok(id) => id,
        Err(e) => panic!("{}", e.message()),
    };
    match kernel_ir(g, out, sched) {
        Ok(k) => k,
        Err(e) => panic!("{}", e.message()),
    }
}

fn usual() -> OptSchedule {
    OptSchedule { tg: 64, vec: 4, unroll: 2, nsg: 2, nr0: 4 }
}

fn numbers(n: usize, seed: usize) -> Vec<f64> {
    (0..n).map(|i| ((i * 37 + seed * 101) % 97) as f64 / 40.0 - 1.1).collect()
}

fn near(got: &[f64], want: &[f64]) {
    assert_eq!(got.len(), want.len());
    for (i, (a, b)) in got.iter().zip(want).enumerate() {
        assert!((a - b).abs() <= 1e-6 * (1.0 + b.abs()), "{i}: {a} {b}");
    }
}

fn product(w: &[f64], x: &[f64], rows: usize) -> Vec<f64> {
    let cols = x.len();
    (0..rows).map(|r| (0..cols).map(|c| w[r * cols + c] * x[c]).sum()).collect()
}

fn half_of(n: f32) -> Scalar {
    Scalar::Bits(n.to_bits())
}

const EPS: f64 = 1e-6;

fn eps() -> Scalar {
    half_of(1e-6)
}

fn normed(x: &[f64], w: &[f64]) -> Vec<f64> {
    let mean = x.iter().map(|a| a * a).sum::<f64>() / x.len() as f64;
    let inv = 1.0 / (mean + number(eps())).sqrt();
    x.iter().zip(w).map(|(a, b)| a * inv * b).collect()
}

fn gelu(x: f64) -> f64 {
    let c1 = f32::from_bits(0x3F4C422A) as f64;
    let c2 = f32::from_bits(0x3D372713) as f64;
    0.5 * x * (1.0 + (c1 * (x + c2 * x * x * x)).tanh())
}

fn matvec_graph(rows: usize, cols: usize) -> (Graph, Result<TensorId, IrError>) {
    let mut g = Graph::new();
    let w = g.input(matrix_shape(rows, cols), DType::F32);
    let x = g.input(vector_shape(cols), DType::F32);
    let out = g.matvec_prim(w, x);
    (g, out)
}

#[test]
fn every_tiling_computes_the_product() {
    for cols in [24, 64, 200, 513] {
        let rows = 10;
        let (w, x) = (numbers(rows * cols, 1), numbers(cols, 2));
        let want = product(&w, &x, rows);
        let (g, out) = matvec_graph(rows, cols);
        let id = out.unwrap();
        for s in beam_matvec_candidates() {
            if cols % s.vec as usize > 1 {
                continue;
            }
            for nr0 in [1, 3, 4] {
                let k = lowered(&g, Ok(id), OptSchedule { nr0, ..s });
                near(&launch(&k, &[w.clone(), x.clone()], &[rows])[0], &want);
            }
        }
    }
}

#[test]
fn a_product_too_wide_to_stage() {
    let (rows, cols) = (3, 8200);
    let (w, x) = (numbers(rows * cols, 3), numbers(cols, 4));
    let (g, out) = matvec_graph(rows, cols);
    let k = lowered(&g, out, usual());
    near(&launch(&k, &[w.clone(), x.clone()], &[rows])[0], &product(&w, &x, rows));
}

#[test]
fn one_thread_alone_reaches_every_element() {
    let (rows, cols) = (2, 27);
    let (w, x) = (numbers(rows * cols, 3), numbers(cols, 4));
    let (g, out) = matvec_graph(rows, cols);
    let k = lowered(&g, out, OptSchedule { tg: 1, vec: 4, unroll: 2, nsg: 2, nr0: 4 });
    near(&launch(&k, &[w.clone(), x.clone()], &[rows])[0], &product(&w, &x, rows));
}

#[test]
fn sums_of_rows() {
    let mut g = Graph::new();
    let a = g.input(matrix_shape(5, 70), DType::F32);
    let out = g.sum_reduce(a, 1);
    let k = lowered(&g, out, usual());
    let x = numbers(350, 5);
    let want: Vec<f64> = x.chunks(70).map(|r| r.iter().sum()).collect();
    near(&launch(&k, &[x], &[5])[0], &want);
}

#[test]
fn chains_of_elementwise_operations() {
    let mut g = Graph::new();
    let a = g.input(vector_shape(20), DType::F32);
    let b = g.input(vector_shape(20), DType::F32);
    let m = g.mul(a, b).unwrap();
    let s = g.add(m, a).unwrap();
    let out = g.scale_const(s, half_of(2.5));
    let k = lowered(&g, out, usual());
    let (x, y) = (numbers(20, 6), numbers(20, 7));
    let want: Vec<f64> = x.iter().zip(&y).map(|(p, q)| 2.5 * (p * q + p)).collect();
    near(&launch(&k, &[x, y], &[20])[0], &want);
}

#[test]
fn copies_move_elements() {
    let mut g = Graph::new();
    let a = g.input(vector_shape(20), DType::F32);
    let out = Ok(g.copy_slice(a, 5, 3, 8).unwrap());
    let k = lowered(&g, out, usual());
    let x = numbers(20, 8);
    let got = launch(&k, &[x.clone()], &[11]);
    near(&got[0][3..], &x[5..13]);
    let mut g = Graph::new();
    let a = g.input(vector_shape(20), DType::F32);
    let out = g.copy_scale(a, 2, 0, 9, half_of(-3.0));
    let k = lowered(&g, out, usual());
    let want: Vec<f64> = x[2..11].iter().map(|v| -3.0 * v).collect();
    near(&launch(&k, &[x], &[9])[0], &want);
}

#[test]
fn normalisation_is_x_over_its_root_mean_square() {
    assert!((EPS - number(eps())).abs() < 1e-12);
    let n = 300;
    let (x, w, r) = (numbers(n, 1), numbers(n, 2), numbers(n, 3));
    let y = normed(&x, &w);
    let mut g = Graph::new();
    let (a, b) = (g.input(vector_shape(n), DType::F32), g.input(vector_shape(n), DType::F32));
    let out = g.rmsnorm_expand(a, b, eps());
    let k = lowered(&g, out, usual());
    near(&launch(&k, &[x.clone(), w.clone()], &[n])[0], &y);
    let mut g = Graph::new();
    let (a, b) = (g.input(vector_shape(n), DType::F32), g.input(vector_shape(n), DType::F32));
    let c = g.input(vector_shape(n), DType::F32);
    let out = g.rmsnorm_add_expand(a, b, c, eps());
    let k = lowered(&g, out, usual());
    let sum: Vec<f64> = y.iter().zip(&r).map(|(p, q)| p + q).collect();
    near(&launch(&k, &[x.clone(), w.clone(), r.clone()], &[n])[0], &sum);
    let out = g.rmsnorm_add_scale_expand(a, b, c, eps(), half_of(0.5));
    let k = lowered(&g, out, usual());
    let half: Vec<f64> = sum.iter().map(|v| v * 0.5).collect();
    near(&launch(&k, &[x, w, r], &[n])[0], &half);
}

#[test]
fn heads_are_normalised_one_by_one() {
    let (heads, hd) = (3, 32);
    let (x, w) = (numbers(heads * hd, 4), numbers(hd, 5));
    let mut g = Graph::new();
    let a = g.input(vector_shape(heads * hd), DType::F32);
    let b = g.input(vector_shape(hd), DType::F32);
    let out = g.rmsnorm_per_head(a, b, heads, hd, eps(), true);
    let k = lowered(&g, out, usual());
    let want: Vec<f64> = x.chunks(hd).flat_map(|h| normed(h, &w)).collect();
    near(&launch(&k, &[x, w], &[heads * hd])[0], &want);
}

fn rotated(x: &[f64], table: &[f64], hd: usize) -> Vec<f64> {
    let half = hd / 2;
    let mut out = x.to_vec();
    for h in 0..x.len() / hd {
        for i in 0..half {
            let (u, v) = (x[h * hd + i], x[h * hd + half + i]);
            let (cos, sin) = (table[i], table[half + i]);
            out[h * hd + i] = u * cos - v * sin;
            out[h * hd + half + i] = u * sin + v * cos;
        }
    }
    out
}

#[test]
fn heads_are_rotated() {
    let (heads, hd) = (2, 32);
    let (x, w, t) = (numbers(heads * hd, 4), numbers(hd, 5), numbers(hd, 6));
    let mut g = Graph::new();
    let a = g.input(vector_shape(heads * hd), DType::F32);
    let c = g.input(vector_shape(hd), DType::F32);
    let out = g.rope(a, c, heads, hd);
    let k = lowered(&g, out, usual());
    near(&launch(&k, &[x.clone(), t.clone()], &[heads * hd])[0], &rotated(&x, &t, hd));
    let mut g = Graph::new();
    let a = g.input(vector_shape(heads * hd), DType::F32);
    let b = g.input(vector_shape(hd), DType::F32);
    let c = g.input(vector_shape(hd), DType::F32);
    let out = g.rmsnorm_per_head_rope(a, b, c, heads, hd, eps(), true);
    let k = lowered(&g, out, usual());
    let y: Vec<f64> = x.chunks(hd).flat_map(|h| normed(h, &w)).collect();
    near(&launch(&k, &[x, w, t.clone()], &[heads * hd])[0], &rotated(&y, &t, hd));
}

#[test]
fn heads_are_packed_in_blocks() {
    let (n_heads, hd, bits) = (2, 64, 1e-6f32.to_bits());
    let (x, w, t) = (numbers(n_heads * hd, 4), numbers(hd, 5), numbers(hd, 6));
    let blocks = |y: &[f64]| -> Vec<f64> { y.chunks(32).flat_map(packed).collect() };
    let (g, out) = (Kernel::QuantizeQ40 { n: n_heads * hd }).graph();
    let k = lowered(&g, out, usual());
    near(&launch(&k, &[x.clone()], &[n_heads * hd])[0], &blocks(&x));
    let (g, out) = (Kernel::RmsNormPerHeadQ40 { n_heads, hd, eps: bits }).graph();
    let k = lowered(&g, out, usual());
    let ones = vec![1.0; hd];
    let y: Vec<f64> = x.chunks(hd).flat_map(|h| normed(h, &ones)).collect();
    near(&launch(&k, &[x.clone(), w.clone()], &[n_heads * hd])[0], &blocks(&y));
    let (g, out) = (Kernel::RmsNormPerHeadRopeQ40 { n_heads, hd, eps: bits }).graph();
    let k = lowered(&g, out, usual());
    let y: Vec<f64> = x.chunks(hd).flat_map(|h| normed(h, &w)).collect();
    let want = blocks(&rotated(&y, &t, hd));
    near(&launch(&k, &[x, w, t], &[n_heads * hd])[0], &want);
}

#[test]
fn gated_products() {
    let n = 40;
    let mut g = Graph::new();
    let a = g.input(vector_shape(n), DType::F32);
    let b = g.input(vector_shape(n + 7), DType::F32);
    let out = g.gelu_mul_at(a, b, 7);
    let k = lowered(&g, out, usual());
    let (mut x, y) = (numbers(n, 1), numbers(n + 7, 2));
    x[3] = 35.0;
    let got = launch(&k, &[x.clone(), y.clone()], &[n]);
    x[3] = 20.0;
    let want: Vec<f64> = (0..n).map(|i| gelu(x[i]) * y[7 + i]).collect();
    near(&got[0], &want);
}

#[test]
fn attention_is_a_weighted_mean() {
    let (n_q, hd, max_t) = (3, 64, 40);
    for (tlen, start) in [(1usize, 0usize), (9, 0), (20, 13), (33, 5)] {
        let mut g = Graph::new();
        let q = g.input(vector_shape(n_q * hd), DType::F16);
        let k = g.input(vector_shape(max_t * hd), DType::F16);
        let v = g.input(vector_shape(max_t * hd), DType::F16);
        let m = g.input(vector_shape(2), DType::F16);
        let out = g.sdpa_naive(q, k, v, m, n_q, hd, max_t);
        let ir = lowered(&g, out, usual());
        let (qs, ks, vs) = (numbers(n_q * hd, 1), numbers(max_t * hd, 2), numbers(max_t * hd, 3));
        let mut want = Vec::new();
        for h in 0..n_q {
            let at = |t: usize| (start + t) * hd;
            let scores: Vec<f64> = (0..tlen)
                .map(|t| (0..hd).map(|d| qs[h * hd + d] * ks[at(t) + d]).sum::<f64>())
                .collect();
            let top = scores.iter().copied().fold(f64::NEG_INFINITY, f64::max);
            let e: Vec<f64> = scores.iter().map(|s| (s - top).exp()).collect();
            let total: f64 = e.iter().sum();
            for d in 0..hd {
                want.push((0..tlen).map(|t| e[t] * vs[at(t) + d]).sum::<f64>() / total);
            }
        }
        let meta = vec![tlen as f64, start as f64];
        near(&launch(&ir, &[qs, ks, vs, meta], &[n_q * hd])[0], &want);
    }
}

#[test]
fn the_first_of_the_largest_logits_wins() {
    let n = 3000;
    let mut g = Graph::new();
    let x = g.input(vector_shape(n), DType::F16);
    let out = g.softcap_argmax(x, half_of(30.0));
    let k = lowered(&g, out, usual());
    let mut logits = numbers(n, 9);
    logits[1234] = 7.0;
    logits[2345] = 7.0;
    assert_eq!(launch(&k, &[logits], &[1])[0], vec![1234.0]);
}

#[test]
fn fused_products() {
    let (rows, kv, cols) = (12, 6, 64);
    let (wq, wk, wv) = (numbers(rows * cols, 1), numbers(kv * cols, 2), numbers(kv * cols, 3));
    let (x, n) = (numbers(cols, 4), numbers(cols, 5));
    let mut g = Graph::new();
    let q = g.input(matrix_shape(rows, cols), DType::F16);
    let a = g.input(matrix_shape(kv, cols), DType::F16);
    let b = g.input(matrix_shape(kv, cols), DType::F16);
    let v = g.input(vector_shape(cols), DType::F16);
    let out = g.matvec_qkv(q, a, b, v);
    let k = lowered(&g, out, usual());
    let got = launch(&k, &[wq.clone(), wk.clone(), wv.clone(), x.clone()], &[rows, kv, kv]);
    near(&got[0], &product(&wq, &x, rows));
    near(&got[1], &product(&wk, &x, kv));
    near(&got[2], &product(&wv, &x, kv));
    let mut g = Graph::new();
    let q = g.input(matrix_shape(rows, cols), DType::F16);
    let v = g.input(vector_shape(cols), DType::F16);
    let w = g.input(vector_shape(cols), DType::F16);
    let out = g.rmsnorm_matvec(q, v, w, eps());
    let k = lowered(&g, out, usual());
    let y = normed(&x, &n);
    near(&launch(&k, &[wq.clone(), x.clone(), n], &[rows])[0], &product(&wq, &y, rows));
    let wu = numbers(rows * cols, 7);
    let mut g = Graph::new();
    let q = g.input(matrix_shape(rows, cols), DType::F16);
    let u = g.input(matrix_shape(rows, cols), DType::F16);
    let v = g.input(vector_shape(cols), DType::F16);
    let out = g.matvec_gate_up_gelu(q, u, v);
    let k = lowered(&g, out, usual());
    let (a, b) = (product(&wq, &x, rows), product(&wu, &x, rows));
    let want: Vec<f64> = a.iter().zip(&b).map(|(p, q)| gelu(p.clamp(-20.0, 20.0)) * q).collect();
    near(&launch(&k, &[wq, wu, x], &[rows])[0], &want);
}

#[test]
fn two_normalisations_in_a_row() {
    let n = 270;
    let (g, out) = (Kernel::RmsNormAddThenRmsNorm { n, eps: 1e-6f32.to_bits() }).graph();
    let k = lowered(&g, out, usual());
    let (y, w1, r, w2) = (numbers(n, 1), numbers(n, 2), numbers(n, 3), numbers(n, 4));
    let got = launch(&k, &[y.clone(), w1.clone(), r.clone(), w2.clone()], &[n, n]);
    let x: Vec<f64> = normed(&y, &w1).iter().zip(&r).map(|(a, b)| a + b).collect();
    near(&got[0], &x);
    near(&got[1], &normed(&x, &w2));
}

#[test]
fn every_candidate_is_accepted() {
    for s in beam_matvec_candidates().into_iter().chain(beam_matvec_q4k_candidates()) {
        assert!(validate_sched(s).is_ok());
    }
    assert!(validate_sched(OptSchedule { vec: 3, ..usual() }).is_err());
    assert!(validate_sched(OptSchedule { unroll: 3, ..usual() }).is_err());
    assert!(validate_sched(OptSchedule { tg: 0, ..usual() }).is_err());
}

#[test]
fn simdgroups_share_packed_blocks() {
    for (rows, cols, dtype) in [
        (16, 512, DType::Q4K),
        (10, 1280, DType::Q4K),
        (8, 768, DType::Q6K),
        (13, 512, DType::Q6K),
    ] {
        let (w, x, n) = (numbers(rows * cols, 1), numbers(cols, 2), numbers(cols, 3));
        let mut g = Graph::new();
        let a = g.input(matrix_shape(rows, cols), dtype);
        let b = g.input(vector_shape(cols), DType::F16);
        let out = g.matvec_prim(a, b);
        let k = lowered(&g, out, usual());
        assert!(matches!(k.launch, KirLaunch::RowsParallelSg { nsg: 2, .. }));
        near(&launch(&k, &[w.clone(), x.clone()], &[rows])[0], &product(&w, &x, rows));
        let mut g = Graph::new();
        let a = g.input(matrix_shape(rows, cols), dtype);
        let b = g.input(vector_shape(cols), DType::F16);
        let c = g.input(vector_shape(cols), DType::F16);
        let out = g.rmsnorm_matvec(a, b, c, eps());
        let k = lowered(&g, out, usual());
        let y = normed(&x, &n);
        near(&launch(&k, &[w.clone(), x, n], &[rows])[0], &product(&w, &y, rows));
    }
}

#[test]
fn simdgroups_gate_packed_products() {
    for (rows, cols) in [(32, 512), (21, 256)] {
        let (wg, wu) = (numbers(rows * cols, 1), numbers(rows * cols, 2));
        let (x, n) = (numbers(cols, 3), numbers(cols, 4));
        let gate = |y: &[f64]| -> Vec<f64> {
            let (a, b) = (product(&wg, y, rows), product(&wu, y, rows));
            a.iter().zip(&b).map(|(p, q)| gelu(p.clamp(-20.0, 20.0)) * q).collect()
        };
        let (g, out) = (Kernel::GateUpGelu { rows, cols, weight: DType::Q4K }).graph();
        let k = lowered(&g, out, usual());
        let got = launch(&k, &[wg.clone(), wu.clone(), x.clone()], &[rows]);
        near(&got[0], &gate(&x));
        let kind = Kernel::RmsNormGateUpGelu {
            rows,
            cols,
            eps: 1e-6f32.to_bits(),
            weight: DType::Q4K,
        };
        let (g, out) = kind.graph();
        let k = lowered(&g, out, usual());
        let got = launch(&k, &[wg.clone(), wu.clone(), x.clone(), n.clone()], &[rows]);
        near(&got[0], &gate(&normed(&x, &n)));
    }
}

#[test]
fn projections_of_a_normalised_vector() {
    let (rows, kv, cols) = (12, 6, 64);
    let (wq, wk, wv) = (numbers(rows * cols, 1), numbers(kv * cols, 2), numbers(kv * cols, 3));
    let (x, n) = (numbers(cols, 4), numbers(cols, 5));
    let mut g = Graph::new();
    let q = g.input(matrix_shape(rows, cols), DType::F16);
    let a = g.input(matrix_shape(kv, cols), DType::F16);
    let b = g.input(matrix_shape(kv, cols), DType::F16);
    let v = g.input(vector_shape(cols), DType::F16);
    let w = g.input(vector_shape(cols), DType::F16);
    let out = g.rmsnorm_matvec_qkv(q, a, b, v, w, eps());
    let k = lowered(&g, out, usual());
    let y = normed(&x, &n);
    let got = launch(&k, &[wq.clone(), wk.clone(), wv.clone(), x, n], &[rows, kv, kv]);
    near(&got[0], &product(&wq, &y, rows));
    near(&got[1], &product(&wk, &y, kv));
    near(&got[2], &product(&wv, &y, kv));
}

#[test]
fn a_gate_and_its_projection_in_one_group() {
    let (gate_rows, cols, proj_rows) = (256, 512, 300);
    let kind = Kernel::MatvecGeluMulProj {
        gate_rows,
        cols,
        proj_rows,
        weight: DType::Q4K,
        eps: 1e-6f32.to_bits(),
        scale: 0.5f32.to_bits(),
    };
    let (g, out) = kind.graph();
    let k = lowered(&g, out, usual());
    let (wg, wp) = (numbers(gate_rows * cols, 1), numbers(proj_rows * gate_rows, 2));
    let (x, ctx) = (numbers(cols, 3), numbers(gate_rows, 4));
    let (w, res) = (numbers(proj_rows, 5), numbers(proj_rows, 6));
    let u: Vec<f64> = product(&wg, &x, gate_rows)
        .iter()
        .zip(&ctx)
        .map(|(p, q)| gelu(p.clamp(-20.0, 20.0)) * q)
        .collect();
    let y = normed(&product(&wp, &u, proj_rows), &w);
    let want: Vec<f64> = y.iter().zip(&res).map(|(a, b)| 0.5 * (a + b)).collect();
    near(&launch(&k, &[wg, x, ctx, wp, w, res], &[proj_rows])[0], &want);
}
