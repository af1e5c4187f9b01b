//! Kernel source that expands the packed element types: loads, dot products,
//! cooperative fragments and packing.

use vstd::prelude::*;
use vstd::string::*;

verus! {

/// Loads and dot products of Q4_K weights, part 1.
pub const Q4K_PART_1: &'static str = r#"
inline void ksearch_get_scale_min_k4(uint j, device const uchar* q, thread uchar& d, thread uchar& m) {
  if (j < 4u) { d = q[j] & 63u; m = q[j + 4u] & 63u; }
  else { d = (q[j + 4u] & 0x0Fu) | ((q[j - 4u] >> 6u) << 4u); m = (q[j + 4u] >> 4u) | ((q[j] >> 6u) << 4u); }
}
inline float ksearch_q4k_at(device const uchar* blk, float d, float dmin, uint j) {
  device const uchar* scales = blk + 4;
  device const uchar* qs = blk + 16;
  uint is = (j / 64u) * 2u;
  uint qoff = (j / 64u) * 32u;
  uint jl = j % 64u;
  uchar sc, mn;
  if (jl < 32u) {
    ksearch_get_scale_min_k4(is, scales, sc, mn);
    return d * float(sc) * float(qs[qoff + jl] & 0x0Fu) - dmin * float(mn);
  } else {
    ksearch_get_scale_min_k4(is + 1u, scales, sc, mn);
    return d * float(sc) * float(qs[qoff + (jl - 32u)] >> 4u) - dmin * float(mn);
  }
}
inline float ksearch_load_q4k(device const uchar* A, uint idx) {
  constexpr uint QK = 256u;
  constexpr uint BPB = 144u;
  device const uchar* blk = A + (idx / QK) * BPB;
  float d = float(*(device const half*)(blk + 0));
  float dmin = float(*(device const half*)(blk + 2));
  return ksearch_q4k_at(blk, d, dmin, idx % QK);
}
"#;

/// Loads and dot products of Q4_K weights, part 2.
pub const Q4K_PART_2: &'static str = r#"// Shared super-block metadata for consecutive idx..idx+3 (vec Load expand).
inline float4 ksearch_load_q4k4(device const uchar* A, uint idx) {
  constexpr uint QK = 256u;
  constexpr uint BPB = 144u;
  uint b0 = idx / QK;
  if ((idx + 3u) / QK != b0) {
    return float4(ksearch_load_q4k(A, idx), ksearch_load_q4k(A, idx + 1u),
                  ksearch_load_q4k(A, idx + 2u), ksearch_load_q4k(A, idx + 3u));
  }
  device const uchar* blk = A + b0 * BPB;
  float d = float(*(device const half*)(blk + 0));
  float dmin = float(*(device const half*)(blk + 2));
  uint j = idx % QK;
  return float4(ksearch_q4k_at(blk, d, dmin, j),
                ksearch_q4k_at(blk, d, dmin, j + 1u),
                ksearch_q4k_at(blk, d, dmin, j + 2u),
                ksearch_q4k_at(blk, d, dmin, j + 3u));
}
inline float2 ksearch_load_q4k2(device const uchar* A, uint idx) {
  constexpr uint QK = 256u;
  constexpr uint BPB = 144u;
  uint b0 = idx / QK;
  if ((idx + 1u) / QK != b0) {
    return float2(ksearch_load_q4k(A, idx), ksearch_load_q4k(A, idx + 1u));
  }
  device const uchar* blk = A + b0 * BPB;
  float d = float(*(device const half*)(blk + 0));
  float dmin = float(*(device const half*)(blk + 2));
  uint j = idx % QK;
  return float2(ksearch_q4k_at(blk, d, dmin, j), ksearch_q4k_at(blk, d, dmin, j + 1u));
}
"#;

/// Loads and dot products of Q4_K weights, part 3.
pub const Q4K_PART_3: &'static str = r#"// One 6-bit scale/min governs 32 weights — vectorized nibble unpack + float4 dots.
inline float ksearch_dot_q4k32(device const uchar* A, uint widx, threadgroup const float* x, uint xidx) {
  constexpr uint QK = 256u;
  constexpr uint BPB = 144u;
  device const uchar* blk = A + (widx / QK) * BPB;
  float d = float(*(device const half*)(blk + 0));
  float dmin = float(*(device const half*)(blk + 2));
  device const uchar* scales = blk + 4;
  device const uchar* qs = blk + 16;
  uint j = widx % QK;
  uint is = (j / 64u) * 2u;
  uint qoff = (j / 64u) * 32u;
  uint jl = j % 64u;
  uchar sc, mn;
  float4 x0 = *(threadgroup const float4*)(x + xidx + 0u);
  float4 x1 = *(threadgroup const float4*)(x + xidx + 4u);
  float4 x2 = *(threadgroup const float4*)(x + xidx + 8u);
  float4 x3 = *(threadgroup const float4*)(x + xidx + 12u);
  float4 x4 = *(threadgroup const float4*)(x + xidx + 16u);
  float4 x5 = *(threadgroup const float4*)(x + xidx + 20u);
  float4 x6 = *(threadgroup const float4*)(x + xidx + 24u);
  float4 x7 = *(threadgroup const float4*)(x + xidx + 28u);
  packed_uchar4 qp0 = *(device const packed_uchar4*)(qs + qoff + 0u);
  packed_uchar4 qp1 = *(device const packed_uchar4*)(qs + qoff + 4u);
  packed_uchar4 qp2 = *(device const packed_uchar4*)(qs + qoff + 8u);
  packed_uchar4 qp3 = *(device const packed_uchar4*)(qs + qoff + 12u);
  packed_uchar4 qp4 = *(device const packed_uchar4*)(qs + qoff + 16u);
  packed_uchar4 qp5 = *(device const packed_uchar4*)(qs + qoff + 20u);
  packed_uchar4 qp6 = *(device const packed_uchar4*)(qs + qoff + 24u);
  packed_uchar4 qp7 = *(device const packed_uchar4*)(qs + qoff + 28u);
  uint4 q0 = uint4(qp0[0], qp0[1], qp0[2], qp0[3]);
  uint4 q1 = uint4(qp1[0], qp1[1], qp1[2], qp1[3]);
  uint4 q2 = uint4(qp2[0], qp2[1], qp2[2], qp2[3]);
  uint4 q3 = uint4(qp3[0], qp3[1], qp3[2], qp3[3]);
  uint4 q4 = uint4(qp4[0], qp4[1], qp4[2], qp4[3]);
  uint4 q5 = uint4(qp5[0], qp5[1], qp5[2], qp5[3]);
  uint4 q6 = uint4(qp6[0], qp6[1], qp6[2], qp6[3]);
  uint4 q7 = uint4(qp7[0], qp7[1], qp7[2], qp7[3]);
  float4 acc4 = float4(0.0f);
  if (jl < 32u) {
    ksearch_get_scale_min_k4(is, scales, sc, mn);
    float d1 = d * float(sc);
    float4 m = float4(dmin * float(mn));
    acc4 += (d1 * float4(int4(q0 & 0xFu)) - m) * x0;
    acc4 += (d1 * float4(int4(q1 & 0xFu)) - m) * x1;
    acc4 += (d1 * float4(int4(q2 & 0xFu)) - m) * x2;
    acc4 += (d1 * float4(int4(q3 & 0xFu)) - m) * x3;
    acc4 += (d1 * float4(int4(q4 & 0xFu)) - m) * x4;
    acc4 += (d1 * float4(int4(q5 & 0xFu)) - m) * x5;
    acc4 += (d1 * float4(int4(q6 & 0xFu)) - m) * x6;
    acc4 += (d1 * float4(int4(q7 & 0xFu)) - m) * x7;
  } else {
    ksearch_get_scale_min_k4(is + 1u, scales, sc, mn);
    float d2 = d * float(sc);
    float4 m = float4(dmin * float(mn));
    acc4 += (d2 * float4(int4(q0 >> 4u)) - m) * x0;
    acc4 += (d2 * float4(int4(q1 >> 4u)) - m) * x1;
    acc4 += (d2 * float4(int4(q2 >> 4u)) - m) * x2;
    acc4 += (d2 * float4(int4(q3 >> 4u)) - m) * x3;
    acc4 += (d2 * float4(int4(q4 >> 4u)) - m) * x4;
    acc4 += (d2 * float4(int4(q5 >> 4u)) - m) * x5;
    acc4 += (d2 * float4(int4(q6 >> 4u)) - m) * x6;
    acc4 += (d2 * float4(int4(q7 >> 4u)) - m) * x7;
  }
  return acc4.x + acc4.y + acc4.z + acc4.w;
}
"#;

/// Loads and dot products of Q4_K weights, part 4.
pub const Q4K_PART_4: &'static str = r#"// Full Q4_K super-block (256 weights) — one d/dmin load, 8 scale groups.
inline float ksearch_dot_q4k256(device const uchar* A, uint widx, threadgroup const float* x, uint xidx) {
  constexpr uint BPB = 144u;
  device const uchar* blk = A + (widx / 256u) * BPB;
  float d = float(*(device const half*)(blk + 0));
  float dmin = float(*(device const half*)(blk + 2));
  device const uchar* scales = blk + 4;
  device const uchar* qs = blk + 16;
  float acc = 0.0f;
  for (uint g = 0u; g < 4u; g++) {
    uchar sc0, mn0, sc1, mn1;
    ksearch_get_scale_min_k4(g * 2u, scales, sc0, mn0);
    ksearch_get_scale_min_k4(g * 2u + 1u, scales, sc1, mn1);
    float d0 = d * float(sc0);
    float m0 = dmin * float(mn0);
    float d1 = d * float(sc1);
    float m1 = dmin * float(mn1);
    uint qoff = g * 32u;
    uint x0 = xidx + g * 64u;
    for (uint l = 0u; l < 32u; l += 4u) {
      float4 ql = float4(float(qs[qoff + l] & 0x0Fu), float(qs[qoff + l + 1u] & 0x0Fu),
                         float(qs[qoff + l + 2u] & 0x0Fu), float(qs[qoff + l + 3u] & 0x0Fu));
      float4 qh = float4(float(qs[qoff + l] >> 4u), float(qs[qoff + l + 1u] >> 4u),
                         float(qs[qoff + l + 2u] >> 4u), float(qs[qoff + l + 3u] >> 4u));
      acc += dot(d0 * ql - float4(m0), *(threadgroup const float4*)(x + x0 + l));
      acc += dot(d1 * qh - float4(m1), *(threadgroup const float4*)(x + x0 + 32u + l));
    }
  }
  return acc;
}
inline float ksearch_dot_q4k32_dev(device const uchar* A, uint widx, device const half* x, uint xidx) {
  float acc = 0.0f;
  for (uint l = 0u; l < 32u; l++) {
    acc += ksearch_load_q4k(A, widx + l) * float(x[xidx + l]);
  }
  return acc;
}
"#;

/// Loads and dot products of Q4_K weights, part 5.
pub const Q4K_PART_5: &'static str = r#"inline float ksearch_dot_q4k256_dev(device const uchar* A, uint widx, device const half* x, uint xidx) {
  float acc = 0.0f;
  for (uint l = 0u; l < 256u; l++) {
    acc += ksearch_load_q4k(A, widx + l) * float(x[xidx + l]);
  }
  return acc;
}
"#;

/// Loads and dot products of Q4_K weights, part 6.
pub const Q4K_PART_6: &'static str = r#"// ggml-style simdgroup lane partial for one Q4_K superblock (mul_vec_q4_K layout).
inline float ksearch_q4k_coop_frag(
    device const uchar* A, uint row_base, uint cols, uint ib,
    threadgroup const float* x, uint lane) {
  constexpr uint QK = 256u;
  constexpr uint BPB = 144u;
  constexpr uint16_t kmask1 = 0x3f3f;
  constexpr uint16_t kmask2 = 0x0f0f;
  constexpr uint16_t kmask3 = 0xc0c0;
  uint it = lane % 8u;
  uint iq = it / 4u;
  uint ir = it % 4u;
  (void)cols;
  device const uchar* blk = A + (row_base / QK + ib) * BPB;
  float yl[16];
  float yh[16];
  threadgroup const float* y4 = x + ib * QK + 64u * iq + 8u * ir;
  float4 sumy = float4(0.0f);
  for (uint i = 0u; i < 8u; i++) {
    yl[i + 0u] = y4[i + 0u];   sumy[0] += yl[i + 0u];
    yl[i + 8u] = y4[i + 32u];  sumy[1] += yl[i + 8u];
    yh[i + 0u] = y4[i + 128u]; sumy[2] += yh[i + 0u];
    yh[i + 8u] = y4[i + 160u]; sumy[3] += yh[i + 8u];
  }
  device const uint16_t* sc = ((device const uint16_t*)(blk + 4)) + iq;
  device const uint16_t* q1 = ((device const uint16_t*)(blk + 16)) + 16u * iq + 4u * ir;
  float d = float(*(device const half*)(blk + 0));
  float dmin = float(*(device const half*)(blk + 2));
  uint16_t sc16[4];
  thread const uchar* sc8 = (thread const uchar*)sc16;
  sc16[0] = sc[0] & kmask1;
  sc16[1] = sc[2] & kmask1;
  sc16[2] = ((sc[4] >> 0) & kmask2) | ((sc[0] & kmask3) >> 2);
  sc16[3] = ((sc[4] >> 4) & kmask2) | ((sc[2] & kmask3) >> 2);
  device const uint16_t* q2 = q1 + 32;
  float4 acc1 = float4(0.0f);
  float4 acc2 = float4(0.0f);
  for (uint i = 0u; i < 4u; i++) {
    acc1[0] += yl[2u * i + 0u] * float(q1[i] & 0x000Fu);
    acc1[1] += yl[2u * i + 1u] * float(q1[i] & 0x0F00u);
    acc1[2] += yl[2u * i + 8u] * float(q1[i] & 0x00F0u);
    acc1[3] += yl[2u * i + 9u] * float(q1[i] & 0xF000u);
    acc2[0] += yh[2u * i + 0u] * float(q2[i] & 0x000Fu);
    acc2[1] += yh[2u * i + 1u] * float(q2[i] & 0x0F00u);
    acc2[2] += yh[2u * i + 8u] * float(q2[i] & 0x00F0u);
    acc2[3] += yh[2u * i + 9u] * float(q2[i] & 0xF000u);
  }
  return d * ((acc1[0] + (1.0f / 256.0f) * acc1[1]) * float(sc8[0]) +
              (acc1[2] + (1.0f / 256.0f) * acc1[3]) * float(sc8[1]) * (1.0f / 16.0f) +
              (acc2[0] + (1.0f / 256.0f) * acc2[1]) * float(sc8[4]) +
              (acc2[2] + (1.0f / 256.0f) * acc2[3]) * float(sc8[5]) * (1.0f / 16.0f)) -
         dmin * (sumy[0] * float(sc8[2]) + sumy[1] * float(sc8[3]) +
                 sumy[2] * float(sc8[6]) + sumy[3] * float(sc8[7]));
}
"#;

/// Loads and dot products of Q4_K weights, part 7.
pub const Q4K_PART_7: &'static str = r#"// One y-load; accumulate 4 rows for both gate and up weight streams.
inline void ksearch_q4k_coop_frag_nr4_dual(
    device const uchar* Ag, device const uchar* Au,
    uint row0_base, uint cols, uint ib,
    threadgroup const float* x, uint lane,
    thread float* g0, thread float* g1, thread float* g2, thread float* g3,
    thread float* u0, thread float* u1, thread float* u2, thread float* u3) {
  constexpr uint QK = 256u;
  constexpr uint BPB = 144u;
  constexpr uint16_t kmask1 = 0x3f3f;
  constexpr uint16_t kmask2 = 0x0f0f;
  constexpr uint16_t kmask3 = 0xc0c0;
  uint it = lane % 8u;
  uint iq = it / 4u;
  uint ir = it % 4u;
  uint bpr = cols / QK;
  float yl[16];
  float yh[16];
  threadgroup const float* y4 = x + ib * QK + 64u * iq + 8u * ir;
  float4 sumy = float4(0.0f);
  for (uint i = 0u; i < 8u; i++) {
    yl[i + 0u] = y4[i + 0u];   sumy[0] += yl[i + 0u];
    yl[i + 8u] = y4[i + 32u];  sumy[1] += yl[i + 8u];
    yh[i + 0u] = y4[i + 128u]; sumy[2] += yh[i + 0u];
    yh[i + 8u] = y4[i + 160u]; sumy[3] += yh[i + 8u];
  }
  uint row_bytes_u16 = (bpr * BPB) / 2u;
  device const uchar* blk_g = Ag + (row0_base / QK + ib) * BPB;
  device const uchar* blk_u = Au + (row0_base / QK + ib) * BPB;
  device const uint16_t* sc_g = ((device const uint16_t*)(blk_g + 4)) + iq;
  device const uint16_t* q1_g = ((device const uint16_t*)(blk_g + 16)) + 16u * iq + 4u * ir;
  device const half* dh_g = (device const half*)(blk_g);
  device const uint16_t* sc_u = ((device const uint16_t*)(blk_u + 4)) + iq;
  device const uint16_t* q1_u = ((device const uint16_t*)(blk_u + 16)) + 16u * iq + 4u * ir;
  device const half* dh_u = (device const half*)(blk_u);
  float sumg[4] = {0.f, 0.f, 0.f, 0.f};
  float sumu[4] = {0.f, 0.f, 0.f, 0.f};
  uint16_t sc16[4];
  thread const uchar* sc8 = (thread const uchar*)sc16;
  for (uint row = 0u; row < 4u; row++) {
    float4 a1g = float4(0.0f), a2g = float4(0.0f);
    float4 a1u = float4(0.0f), a2u = float4(0.0f);
    sc16[0] = sc_g[0] & kmask1;
    sc16[1] = sc_g[2] & kmask1;
    sc16[2] = ((sc_g[4] >> 0) & kmask2) | ((sc_g[0] & kmask3) >> 2);
    sc16[3] = ((sc_g[4] >> 4) & kmask2) | ((sc_g[2] & kmask3) >> 2);
    device const uint16_t* q2_g = q1_g + 32;
    #pragma unroll
    for (uint i = 0u; i < 4u; i++) {
      a1g[0] += yl[2u * i + 0u] * float(q1_g[i] & 0x000Fu);
      a1g[1] += yl[2u * i + 1u] * float(q1_g[i] & 0x0F00u);
      a1g[2] += yl[2u * i + 8u] * float(q1_g[i] & 0x00F0u);
      a1g[3] += yl[2u * i + 9u] * float(q1_g[i] & 0xF000u);
      a2g[0] += yh[2u * i + 0u] * float(q2_g[i] & 0x000Fu);
      a2g[1] += yh[2u * i + 1u] * float(q2_g[i] & 0x0F00u);
      a2g[2] += yh[2u * i + 8u] * float(q2_g[i] & 0x00F0u);
      a2g[3] += yh[2u * i + 9u] * float(q2_g[i] & 0xF000u);
    }
    sumg[row] += float(dh_g[0]) * ((a1g[0] + (1.0f / 256.0f) * a1g[1]) * float(sc8[0]) +
                                   (a1g[2] + (1.0f / 256.0f) * a1g[3]) * float(sc8[1]) * (1.0f / 16.0f) +
                                   (a2g[0] + (1.0f / 256.0f) * a2g[1]) * float(sc8[4]) +
                                   (a2g[2] + (1.0f / 256.0f) * a2g[3]) * float(sc8[5]) * (1.0f / 16.0f)) -
                float(dh_g[1]) * (sumy[0] * float(sc8[2]) + sumy[1] * float(sc8[3]) +
                                  sumy[2] * float(sc8[6]) + sumy[3] * float(sc8[7]));
    sc16[0] = sc_u[0] & kmask1;
    sc16[1] = sc_u[2] & kmask1;
    sc16[2] = ((sc_u[4] >> 0) & kmask2) | ((sc_u[0] & kmask3) >> 2);
    sc16[3] = ((sc_u[4] >> 4) & kmask2) | ((sc_u[2] & kmask3) >> 2);
    device const uint16_t* q2_u = q1_u + 32;
    #pragma unroll
    for (uint i = 0u; i < 4u; i++) {
      a1u[0] += yl[2u * i + 0u] * float(q1_u[i] & 0x000Fu);
      a1u[1] += yl[2u * i + 1u] * float(q1_u[i] & 0x0F00u);
      a1u[2] += yl[2u * i + 8u] * float(q1_u[i] & 0x00F0u);
      a1u[3] += yl[2u * i + 9u] * float(q1_u[i] & 0xF000u);
      a2u[0] += yh[2u * i + 0u] * float(q2_u[i] & 0x000Fu);
      a2u[1] += yh[2u * i + 1u] * float(q2_u[i] & 0x0F00u);
      a2u[2] += yh[2u * i + 8u] * float(q2_u[i] & 0x00F0u);
      a2u[3] += yh[2u * i + 9u] * float(q2_u[i] & 0xF000u);
    }
    sumu[row] += float(dh_u[0]) * ((a1u[0] + (1.0f / 256.0f) * a1u[1]) * float(sc8[0]) +
                                   (a1u[2] + (1.0f / 256.0f) * a1u[3]) * float(sc8[1]) * (1.0f / 16.0f) +
                                   (a2u[0] + (1.0f / 256.0f) * a2u[1]) * float(sc8[4]) +
                                   (a2u[2] + (1.0f / 256.0f) * a2u[3]) * float(sc8[5]) * (1.0f / 16.0f)) -
                float(dh_u[1]) * (sumy[0] * float(sc8[2]) + sumy[1] * float(sc8[3]) +
                                  sumy[2] * float(sc8[6]) + sumy[3] * float(sc8[7]));
    q1_g += row_bytes_u16; sc_g += row_bytes_u16; dh_g += row_bytes_u16;
    q1_u += row_bytes_u16; sc_u += row_bytes_u16; dh_u += row_bytes_u16;
  }
  *g0 += sumg[0]; *g1 += sumg[1]; *g2 += sumg[2]; *g3 += sumg[3];
  *u0 += sumu[0]; *u1 += sumu[1]; *u2 += sumu[2]; *u3 += sumu[3];
}
"#;

/// Loads and dot products of Q4_K weights, part 8.
pub const Q4K_PART_8: &'static str = r#"inline void ksearch_q4k_coop_frag_nr4(
    device const uchar* A, uint row0_base, uint cols, uint ib,
    threadgroup const float* x, uint lane,
    thread float* a0, thread float* a1, thread float* a2, thread float* a3) {
  constexpr uint QK = 256u;
  constexpr uint BPB = 144u;
  constexpr uint16_t kmask1 = 0x3f3f;
  constexpr uint16_t kmask2 = 0x0f0f;
  constexpr uint16_t kmask3 = 0xc0c0;
  uint it = lane % 8u;
  uint iq = it / 4u;
  uint ir = it % 4u;
  uint bpr = cols / QK;
  float yl[16];
  float yh[16];
  threadgroup const float* y4 = x + ib * QK + 64u * iq + 8u * ir;
  float4 sumy = float4(0.0f);
  for (uint i = 0u; i < 8u; i++) {
    yl[i + 0u] = y4[i + 0u];   sumy[0] += yl[i + 0u];
    yl[i + 8u] = y4[i + 32u];  sumy[1] += yl[i + 8u];
    yh[i + 0u] = y4[i + 128u]; sumy[2] += yh[i + 0u];
    yh[i + 8u] = y4[i + 160u]; sumy[3] += yh[i + 8u];
  }
  device const uchar* blk0 = A + (row0_base / QK + ib) * BPB;
  device const uint16_t* sc = ((device const uint16_t*)(blk0 + 4)) + iq;
  device const uint16_t* q1 = ((device const uint16_t*)(blk0 + 16)) + 16u * iq + 4u * ir;
  device const half* dh = (device const half*)(blk0);
  thread float* accs[4] = { a0, a1, a2, a3 };
  uint row_bytes_u16 = (bpr * BPB) / 2u;
  for (uint row = 0u; row < 4u; row++) {
    uint16_t sc16[4];
    thread const uchar* sc8 = (thread const uchar*)sc16;
    sc16[0] = sc[0] & kmask1;
    sc16[1] = sc[2] & kmask1;
    sc16[2] = ((sc[4] >> 0) & kmask2) | ((sc[0] & kmask3) >> 2);
    sc16[3] = ((sc[4] >> 4) & kmask2) | ((sc[2] & kmask3) >> 2);
    device const uint16_t* q2 = q1 + 32;
    float4 acc1 = float4(0.0f);
    float4 acc2 = float4(0.0f);
    for (uint i = 0u; i < 4u; i++) {
      acc1[0] += yl[2u * i + 0u] * float(q1[i] & 0x000Fu);
      acc1[1] += yl[2u * i + 1u] * float(q1[i] & 0x0F00u);
      acc1[2] += yl[2u * i + 8u] * float(q1[i] & 0x00F0u);
      acc1[3] += yl[2u * i + 9u] * float(q1[i] & 0xF000u);
      acc2[0] += yh[2u * i + 0u] * float(q2[i] & 0x000Fu);
      acc2[1] += yh[2u * i + 1u] * float(q2[i] & 0x0F00u);
      acc2[2] += yh[2u * i + 8u] * float(q2[i] & 0x00F0u);
      acc2[3] += yh[2u * i + 9u] * float(q2[i] & 0xF000u);
    }
    float d = float(dh[0]);
    float dmin = float(dh[1]);
    *accs[row] += d * ((acc1[0] + (1.0f / 256.0f) * acc1[1]) * float(sc8[0]) +
                       (acc1[2] + (1.0f / 256.0f) * acc1[3]) * float(sc8[1]) * (1.0f / 16.0f) +
                       (acc2[0] + (1.0f / 256.0f) * acc2[1]) * float(sc8[4]) +
                       (acc2[2] + (1.0f / 256.0f) * acc2[3]) * float(sc8[5]) * (1.0f / 16.0f)) -
                  dmin * (sumy[0] * float(sc8[2]) + sumy[1] * float(sc8[3]) +
                          sumy[2] * float(sc8[6]) + sumy[3] * float(sc8[7]));
    q1 += row_bytes_u16;
    sc += row_bytes_u16;
    dh += row_bytes_u16;
  }
}
"#;

/// Loads and dot products of Q4_K weights, part 9.
pub const Q4K_PART_9: &'static str = r#"

// Device-half y variants (no TG staging — oracle mul_vec streams device activations).
inline void ksearch_q4k_load_y_dev(device const half* y4, thread float* yl, thread float* yh, thread float4* sumy) {
  float4 yl0 = float4(*(device const half4*)(y4 + 0u));
  float4 yl1 = float4(*(device const half4*)(y4 + 4u));
  float4 yl2 = float4(*(device const half4*)(y4 + 32u));
  float4 yl3 = float4(*(device const half4*)(y4 + 36u));
  float4 yh0 = float4(*(device const half4*)(y4 + 128u));
  float4 yh1 = float4(*(device const half4*)(y4 + 132u));
  float4 yh2 = float4(*(device const half4*)(y4 + 160u));
  float4 yh3 = float4(*(device const half4*)(y4 + 164u));
  ((thread float4*)yl)[0] = yl0;
  ((thread float4*)yl)[1] = yl1;
  ((thread float4*)yl)[2] = yl2;
  ((thread float4*)yl)[3] = yl3;
  ((thread float4*)yh)[0] = yh0;
  ((thread float4*)yh)[1] = yh1;
  ((thread float4*)yh)[2] = yh2;
  ((thread float4*)yh)[3] = yh3;
  *sumy = float4(
      yl0[0] + yl0[1] + yl0[2] + yl0[3] + yl1[0] + yl1[1] + yl1[2] + yl1[3],
      yl2[0] + yl2[1] + yl2[2] + yl2[3] + yl3[0] + yl3[1] + yl3[2] + yl3[3],
      yh0[0] + yh0[1] + yh0[2] + yh0[3] + yh1[0] + yh1[1] + yh1[2] + yh1[3],
      yh2[0] + yh2[1] + yh2[2] + yh2[3] + yh3[0] + yh3[1] + yh3[2] + yh3[3]);
}
"#;

/// Loads and dot products of Q4_K weights, part 10.
pub const Q4K_PART_10: &'static str = r#"inline float ksearch_q4k_coop_frag_dev(
    device const uchar* A, uint row_base, uint cols, uint ib,
    device const half* x, uint lane) {
  constexpr uint QK = 256u;
  constexpr uint BPB = 144u;
  constexpr uint16_t kmask1 = 0x3f3f;
  constexpr uint16_t kmask2 = 0x0f0f;
  constexpr uint16_t kmask3 = 0xc0c0;
  uint it = lane % 8u;
  uint iq = it / 4u;
  uint ir = it % 4u;
  (void)cols;
  device const uchar* blk = A + (row_base / QK + ib) * BPB;
  float yl[16];
  float yh[16];
  device const half* y4 = x + ib * QK + 64u * iq + 8u * ir;
  float4 sumy;
  ksearch_q4k_load_y_dev(y4, yl, yh, &sumy);
  device const uint16_t* sc = ((device const uint16_t*)(blk + 4)) + iq;
  device const uint16_t* q1 = ((device const uint16_t*)(blk + 16)) + 16u * iq + 4u * ir;
  float2 dd = float2(*(device const half2*)blk);
  uint16_t sc16[4];
  thread const uchar* sc8 = (thread const uchar*)sc16;
  sc16[0] = sc[0] & kmask1;
  sc16[1] = sc[2] & kmask1;
  sc16[2] = ((sc[4] >> 0) & kmask2) | ((sc[0] & kmask3) >> 2);
  sc16[3] = ((sc[4] >> 4) & kmask2) | ((sc[2] & kmask3) >> 2);
  ushort4 q1v = *(device const ushort4*)q1;
  ushort4 q2v = *(device const ushort4*)(q1 + 32);
  float4 acc1 = float4(0.0f);
  float4 acc2 = float4(0.0f);
  #pragma unroll
  for (uint i = 0u; i < 4u; i++) {
    acc1[0] += yl[2u * i + 0u] * float(q1v[i] & 0x000Fu);
    acc1[1] += yl[2u * i + 1u] * float(q1v[i] & 0x0F00u);
    acc1[2] += yl[2u * i + 8u] * float(q1v[i] & 0x00F0u);
    acc1[3] += yl[2u * i + 9u] * float(q1v[i] & 0xF000u);
    acc2[0] += yh[2u * i + 0u] * float(q2v[i] & 0x000Fu);
    acc2[1] += yh[2u * i + 1u] * float(q2v[i] & 0x0F00u);
    acc2[2] += yh[2u * i + 8u] * float(q2v[i] & 0x00F0u);
    acc2[3] += yh[2u * i + 9u] * float(q2v[i] & 0xF000u);
  }
  return dd[0] * ((acc1[0] + (1.0f / 256.0f) * acc1[1]) * float(sc8[0]) +
                  (acc1[2] + (1.0f / 256.0f) * acc1[3]) * float(sc8[1]) * (1.0f / 16.0f) +
                  (acc2[0] + (1.0f / 256.0f) * acc2[1]) * float(sc8[4]) +
                  (acc2[2] + (1.0f / 256.0f) * acc2[3]) * float(sc8[5]) * (1.0f / 16.0f)) -
         dd[1] * (sumy[0] * float(sc8[2]) + sumy[1] * float(sc8[3]) +
                  sumy[2] * float(sc8[6]) + sumy[3] * float(sc8[7]));
}
"#;

/// Loads and dot products of Q4_K weights, part 11.
pub const Q4K_PART_11: &'static str = r#"inline void ksearch_q4k_coop_frag_nr4_dev(
    device const uchar* A, uint row0_base, uint cols, uint ib,
    device const half* x, uint lane,
    thread float* a0, thread float* a1, thread float* a2, thread float* a3) {
  constexpr uint QK = 256u;
  constexpr uint BPB = 144u;
  constexpr uint16_t kmask1 = 0x3f3f;
  constexpr uint16_t kmask2 = 0x0f0f;
  constexpr uint16_t kmask3 = 0xc0c0;
  uint it = lane % 8u;
  uint iq = it / 4u;
  uint ir = it % 4u;
  uint bpr = cols / QK;
  float yl[16];
  float yh[16];
  device const half* y4 = x + ib * QK + 64u * iq + 8u * ir;
  float4 sumy;
  ksearch_q4k_load_y_dev(y4, yl, yh, &sumy);
  device const uchar* blk0 = A + (row0_base / QK + ib) * BPB;
  device const uint16_t* sc = ((device const uint16_t*)(blk0 + 4)) + iq;
  device const uint16_t* q1 = ((device const uint16_t*)(blk0 + 16)) + 16u * iq + 4u * ir;
  device const half* dh = (device const half*)(blk0);
  float sumf[4] = {0.f, 0.f, 0.f, 0.f};
  uint row_bytes_u16 = (bpr * BPB) / 2u;
  for (uint row = 0u; row < 4u; row++) {
    uint16_t sc16[4];
    thread const uchar* sc8 = (thread const uchar*)sc16;
    sc16[0] = sc[0] & kmask1;
    sc16[1] = sc[2] & kmask1;
    sc16[2] = ((sc[4] >> 0) & kmask2) | ((sc[0] & kmask3) >> 2);
    sc16[3] = ((sc[4] >> 4) & kmask2) | ((sc[2] & kmask3) >> 2);
    ushort4 q1v = *(device const ushort4*)q1;
    ushort4 q2v = *(device const ushort4*)(q1 + 32);
    float4 acc1 = float4(0.0f);
    float4 acc2 = float4(0.0f);
    #pragma unroll
    for (uint i = 0u; i < 4u; i++) {
      acc1[0] += yl[2u * i + 0u] * float(q1v[i] & 0x000Fu);
      acc1[1] += yl[2u * i + 1u] * float(q1v[i] & 0x0F00u);
      acc1[2] += yl[2u * i + 8u] * float(q1v[i] & 0x00F0u);
      acc1[3] += yl[2u * i + 9u] * float(q1v[i] & 0xF000u);
      acc2[0] += yh[2u * i + 0u] * float(q2v[i] & 0x000Fu);
      acc2[1] += yh[2u * i + 1u] * float(q2v[i] & 0x0F00u);
      acc2[2] += yh[2u * i + 8u] * float(q2v[i] & 0x00F0u);
      acc2[3] += yh[2u * i + 9u] * float(q2v[i] & 0xF000u);
    }
    float2 dd = float2(*(device const half2*)dh);
    sumf[row] += dd[0] * ((acc1[0] + (1.0f / 256.0f) * acc1[1]) * float(sc8[0]) +
                           (acc1[2] + (1.0f / 256.0f) * acc1[3]) * float(sc8[1]) * (1.0f / 16.0f) +
                           (acc2[0] + (1.0f / 256.0f) * acc2[1]) * float(sc8[4]) +
                           (acc2[2] + (1.0f / 256.0f) * acc2[3]) * float(sc8[5]) * (1.0f / 16.0f)) -
                  dd[1] * (sumy[0] * float(sc8[2]) + sumy[1] * float(sc8[3]) +
                           sumy[2] * float(sc8[6]) + sumy[3] * float(sc8[7]));
    q1 += row_bytes_u16;
    sc += row_bytes_u16;
    dh += row_bytes_u16;
  }
  *a0 += sumf[0]; *a1 += sumf[1]; *a2 += sumf[2]; *a3 += sumf[3];
}
"#;

/// Loads and dot products of Q4_K weights, part 12.
pub const Q4K_PART_12: &'static str = r#"inline void ksearch_q4k_coop_frag_nr4_dual_dev(
    device const uchar* Ag, device const uchar* Au,
    uint row0_base, uint cols, uint ib,
    device const half* x, uint lane,
    thread float* g0, thread float* g1, thread float* g2, thread float* g3,
    thread float* u0, thread float* u1, thread float* u2, thread float* u3) {
  constexpr uint QK = 256u;
  constexpr uint BPB = 144u;
  constexpr uint16_t kmask1 = 0x3f3f;
  constexpr uint16_t kmask2 = 0x0f0f;
  constexpr uint16_t kmask3 = 0xc0c0;
  uint it = lane % 8u;
  uint iq = it / 4u;
  uint ir = it % 4u;
  uint bpr = cols / QK;
  float yl[16];
  float yh[16];
  device const half* y4 = x + ib * QK + 64u * iq + 8u * ir;
  float4 sumy;
  ksearch_q4k_load_y_dev(y4, yl, yh, &sumy);
  uint row_bytes_u16 = (bpr * BPB) / 2u;
  device const uchar* blk_g = Ag + (row0_base / QK + ib) * BPB;
  device const uchar* blk_u = Au + (row0_base / QK + ib) * BPB;
  device const uint16_t* sc_g = ((device const uint16_t*)(blk_g + 4)) + iq;
  device const uint16_t* q1_g = ((device const uint16_t*)(blk_g + 16)) + 16u * iq + 4u * ir;
  device const half* dh_g = (device const half*)(blk_g);
  device const uint16_t* sc_u = ((device const uint16_t*)(blk_u + 4)) + iq;
  device const uint16_t* q1_u = ((device const uint16_t*)(blk_u + 16)) + 16u * iq + 4u * ir;
  device const half* dh_u = (device const half*)(blk_u);
  float sumg[4] = {0.f, 0.f, 0.f, 0.f};
  float sumu[4] = {0.f, 0.f, 0.f, 0.f};
  uint16_t sc16[4];
  thread const uchar* sc8 = (thread const uchar*)sc16;
  for (uint row = 0u; row < 4u; row++) {
    float4 a1g = float4(0.0f), a2g = float4(0.0f);
    float4 a1u = float4(0.0f), a2u = float4(0.0f);
    sc16[0] = sc_g[0] & kmask1;
    sc16[1] = sc_g[2] & kmask1;
    sc16[2] = ((sc_g[4] >> 0) & kmask2) | ((sc_g[0] & kmask3) >> 2);
    sc16[3] = ((sc_g[4] >> 4) & kmask2) | ((sc_g[2] & kmask3) >> 2);
    ushort4 q1gv = *(device const ushort4*)q1_g;
    ushort4 q2gv = *(device const ushort4*)(q1_g + 32);
    #pragma unroll
    for (uint i = 0u; i < 4u; i++) {
      a1g[0] += yl[2u * i + 0u] * float(q1gv[i] & 0x000Fu);
      a1g[1] += yl[2u * i + 1u] * float(q1gv[i] & 0x0F00u);
      a1g[2] += yl[2u * i + 8u] * float(q1gv[i] & 0x00F0u);
      a1g[3] += yl[2u * i + 9u] * float(q1gv[i] & 0xF000u);
      a2g[0] += yh[2u * i + 0u] * float(q2gv[i] & 0x000Fu);
      a2g[1] += yh[2u * i + 1u] * float(q2gv[i] & 0x0F00u);
      a2g[2] += yh[2u * i + 8u] * float(q2gv[i] & 0x00F0u);
      a2g[3] += yh[2u * i + 9u] * float(q2gv[i] & 0xF000u);
    }
    float2 ddg = float2(*(device const half2*)dh_g);
    sumg[row] += ddg[0] * ((a1g[0] + (1.0f / 256.0f) * a1g[1]) * float(sc8[0]) +
                           (a1g[2] + (1.0f / 256.0f) * a1g[3]) * float(sc8[1]) * (1.0f / 16.0f) +
                           (a2g[0] + (1.0f / 256.0f) * a2g[1]) * float(sc8[4]) +
                           (a2g[2] + (1.0f / 256.0f) * a2g[3]) * float(sc8[5]) * (1.0f / 16.0f)) -
                ddg[1] * (sumy[0] * float(sc8[2]) + sumy[1] * float(sc8[3]) +
                          sumy[2] * float(sc8[6]) + sumy[3] * float(sc8[7]));
    sc16[0] = sc_u[0] & kmask1;
    sc16[1] = sc_u[2] & kmask1;
    sc16[2] = ((sc_u[4] >> 0) & kmask2) | ((sc_u[0] & kmask3) >> 2);
    sc16[3] = ((sc_u[4] >> 4) & kmask2) | ((sc_u[2] & kmask3) >> 2);
    ushort4 q1uv = *(device const ushort4*)q1_u;
    ushort4 q2uv = *(device const ushort4*)(q1_u + 32);
    #pragma unroll
    for (uint i = 0u; i < 4u; i++) {
      a1u[0] += yl[2u * i + 0u] * float(q1uv[i] & 0x000Fu);
      a1u[1] += yl[2u * i + 1u] * float(q1uv[i] & 0x0F00u);
      a1u[2] += yl[2u * i + 8u] * float(q1uv[i] & 0x00F0u);
      a1u[3] += yl[2u * i + 9u] * float(q1uv[i] & 0xF000u);
      a2u[0] += yh[2u * i + 0u] * float(q2uv[i] & 0x000Fu);
      a2u[1] += yh[2u * i + 1u] * float(q2uv[i] & 0x0F00u);
      a2u[2] += yh[2u * i + 8u] * float(q2uv[i] & 0x00F0u);
      a2u[3] += yh[2u * i + 9u] * float(q2uv[i] & 0xF000u);
    }
    float2 ddu = float2(*(device const half2*)dh_u);
    sumu[row] += ddu[0] * ((a1u[0] + (1.0f / 256.0f) * a1u[1]) * float(sc8[0]) +
                           (a1u[2] + (1.0f / 256.0f) * a1u[3]) * float(sc8[1]) * (1.0f / 16.0f) +
                           (a2u[0] + (1.0f / 256.0f) * a2u[1]) * float(sc8[4]) +
                           (a2u[2] + (1.0f / 256.0f) * a2u[3]) * float(sc8[5]) * (1.0f / 16.0f)) -
                ddu[1] * (sumy[0] * float(sc8[2]) + sumy[1] * float(sc8[3]) +
                          sumy[2] * float(sc8[6]) + sumy[3] * float(sc8[7]));
    q1_g += row_bytes_u16; sc_g += row_bytes_u16; dh_g += row_bytes_u16;
    q1_u += row_bytes_u16; sc_u += row_bytes_u16; dh_u += row_bytes_u16;
  }
  *g0 += sumg[0]; *g1 += sumg[1]; *g2 += sumg[2]; *g3 += sumg[3];
  *u0 += sumu[0]; *u1 += sumu[1]; *u2 += sumu[2]; *u3 += sumu[3];
}
"#;

/// Loads and dot products of Q4_K weights, part 13.
pub const Q4K_PART_13: &'static str = r#"


"#;

/// Loads and dot products of Q4_K weights.
pub open spec fn q4k_helper() -> Seq<char> {
    Q4K_PART_1@ + Q4K_PART_2@ + Q4K_PART_3@ + Q4K_PART_4@ + Q4K_PART_5@ + Q4K_PART_6@ + Q4K_PART_7@
        + Q4K_PART_8@ + Q4K_PART_9@ + Q4K_PART_10@ + Q4K_PART_11@ + Q4K_PART_12@ + Q4K_PART_13@
}

pub fn q4k_helper_text() -> (r: String)
    ensures
        r@ == q4k_helper(),
{
    String::from_str(Q4K_PART_1).concat(Q4K_PART_2).concat(Q4K_PART_3).concat(Q4K_PART_4)
        .concat(Q4K_PART_5).concat(Q4K_PART_6).concat(Q4K_PART_7).concat(Q4K_PART_8)
        .concat(Q4K_PART_9).concat(Q4K_PART_10).concat(Q4K_PART_11).concat(Q4K_PART_12)
        .concat(Q4K_PART_13)
}

/// Loads and cooperative fragments of Q6_K weights, part 1.
pub const Q6K_PART_1: &'static str = r#"
// --- Q6_K Load expand + ggml mul_vec_q6_K-shaped coop ---
inline float ksearch_load_q6k(device const uchar* A, uint idx) {
  constexpr uint QK = 256u;
  constexpr uint BPB = 210u;
  device const uchar* blk = A + (idx / QK) * BPB;
  uint j = idx % QK;
  uint hpart = j / 128u;
  uint jl = j % 128u;
  device const uchar* ql = blk + hpart * 64u;
  device const uchar* qh = blk + 128u + hpart * 32u;
  device const char* sc = (device const char*)(blk + 192u) + hpart * 8u;
  float d = float(*(device const half*)(blk + 208));
  uint l = jl % 32u;
  uint is = l / 16u;
  int q;
  if (jl < 32u) {
    q = int((ql[l] & 0x0Fu) | (((qh[l] >> 0u) & 3u) << 4u)) - 32;
    return d * float(sc[is]) * float(q);
  } else if (jl < 64u) {
    q = int((ql[l + 32u] & 0x0Fu) | (((qh[l] >> 2u) & 3u) << 4u)) - 32;
    return d * float(sc[is + 2]) * float(q);
  } else if (jl < 96u) {
    q = int((ql[l] >> 4u) | (((qh[l] >> 4u) & 3u) << 4u)) - 32;
    return d * float(sc[is + 4]) * float(q);
  } else {
    q = int((ql[l + 32u] >> 4u) | (((qh[l] >> 6u) & 3u) << 4u)) - 32;
    return d * float(sc[is + 6]) * float(q);
  }
}
"#;

/// Loads and cooperative fragments of Q6_K weights, part 2.
pub const Q6K_PART_2: &'static str = r#"inline float ksearch_q6k_coop_frag_regs(
    device const uchar* A, uint row_base, uint cols, uint ib,
    thread float* yl, uint lane) {
  constexpr uint QK = 256u;
  constexpr uint BPB = 210u;
  constexpr uchar kmask1 = 0x03u;
  constexpr uchar kmask2 = 0x0Cu;
  constexpr uchar kmask3 = 0x30u;
  constexpr uchar kmask4 = 0xC0u;
  (void)cols;
  uint tid = lane / 2u;
  uint ip = tid / 8u;
  uint il = tid % 8u;
  uint l0 = 4u * il;
  uint is = 8u * ip + l0 / 16u;
  uint q_offset_l = 64u * ip + l0;
  uint q_offset_h = 32u * ip + l0;
  device const uchar* blk = A + (row_base / QK + ib) * BPB;
  device const uchar* q1 = blk + q_offset_l;
  device const uchar* q2 = q1 + 32u;
  device const uchar* qh = blk + 128u + q_offset_h;
  device const char* sc = (device const char*)(blk + 192u) + is;
  float d = float(*(device const half*)(blk + 208));
  float4 sums = float4(0.0f);
  #pragma unroll
  for (uint l = 0u; l < 4u; l++) {
    sums[0] += yl[4u * l + 0u] * float(char((q1[l] & 0x0Fu) | ((qh[l] & kmask1) << 4u)) - 32);
    sums[1] += yl[4u * l + 1u] * float(char((q2[l] & 0x0Fu) | ((qh[l] & kmask2) << 2u)) - 32);
    sums[2] += yl[4u * l + 2u] * float(char((q1[l] >> 4u) | ((qh[l] & kmask3) << 0u)) - 32);
    sums[3] += yl[4u * l + 3u] * float(char((q2[l] >> 4u) | ((qh[l] & kmask4) >> 2u)) - 32);
  }
  return d * (sums[0] * float(sc[0]) + sums[1] * float(sc[2]) + sums[2] * float(sc[4]) + sums[3] * float(sc[6]));
}
"#;

/// Loads and cooperative fragments of Q6_K weights, part 3.
pub const Q6K_PART_3: &'static str = r#"inline void ksearch_q6k_load_y_dev(device const half* y, thread float* yl) {
  float4 ya = float4(*(device const half4*)(y + 0u));
  float4 yb = float4(*(device const half4*)(y + 32u));
  float4 yc = float4(*(device const half4*)(y + 64u));
  float4 yd = float4(*(device const half4*)(y + 96u));
  #pragma unroll
  for (uint l = 0u; l < 4u; l++) {
    yl[4u * l + 0u] = ya[l];
    yl[4u * l + 1u] = yb[l];
    yl[4u * l + 2u] = yc[l];
    yl[4u * l + 3u] = yd[l];
  }
}
inline float ksearch_q6k_coop_frag(
    device const uchar* A, uint row_base, uint cols, uint ib,
    threadgroup const float* x, uint x_off, uint lane) {
  constexpr uint QK = 256u;
  uint tid = lane / 2u;
  uint ip = tid / 8u;
  uint il = tid % 8u;
  uint l0 = 4u * il;
  uint y_offset = 128u * ip + l0;
  threadgroup const float* y = x + (ib * QK - x_off) + y_offset;
  float yl[16];
  for (uint l = 0u; l < 4u; l++) {
    yl[4u * l + 0u] = y[l + 0u];
    yl[4u * l + 1u] = y[l + 32u];
    yl[4u * l + 2u] = y[l + 64u];
    yl[4u * l + 3u] = y[l + 96u];
  }
  return ksearch_q6k_coop_frag_regs(A, row_base, cols, ib, yl, lane);
}
"#;

/// Loads and cooperative fragments of Q6_K weights, part 4.
pub const Q6K_PART_4: &'static str = r#"inline float ksearch_q6k_coop_frag_dev(
    device const uchar* A, uint row_base, uint cols, uint ib,
    device const half* x, uint lane) {
  constexpr uint QK = 256u;
  uint tid = lane / 2u;
  uint ip = tid / 8u;
  uint il = tid % 8u;
  uint l0 = 4u * il;
  uint y_offset = 128u * ip + l0;
  device const half* y = x + ib * QK + y_offset;
  float yl[16];
  ksearch_q6k_load_y_dev(y, yl);
  return ksearch_q6k_coop_frag_regs(A, row_base, cols, ib, yl, lane);
}
"#;

/// Loads and cooperative fragments of Q6_K weights, part 5.
pub const Q6K_PART_5: &'static str = r#"inline void ksearch_q6k_coop_frag_nr4(
    device const uchar* A, uint row0_base, uint cols, uint ib,
    threadgroup const float* x, uint x_off, uint lane,
    thread float* a0, thread float* a1, thread float* a2, thread float* a3) {
  constexpr uint QK = 256u;
  constexpr uint BPB = 210u;
  constexpr uchar kmask1 = 0x03u;
  constexpr uchar kmask2 = 0x0Cu;
  constexpr uchar kmask3 = 0x30u;
  constexpr uchar kmask4 = 0xC0u;
  uint tid = lane / 2u;
  uint ip = tid / 8u;
  uint il = tid % 8u;
  uint l0 = 4u * il;
  uint is = 8u * ip + l0 / 16u;
  uint y_offset = 128u * ip + l0;
  uint q_offset_l = 64u * ip + l0;
  uint q_offset_h = 32u * ip + l0;
  uint bpr = cols / QK;
  uint row_bytes = bpr * BPB;
  threadgroup const float* y = x + (ib * QK - x_off) + y_offset;
  float yl[16];
  for (uint l = 0u; l < 4u; l++) {
    yl[4u * l + 0u] = y[l + 0u];
    yl[4u * l + 1u] = y[l + 32u];
    yl[4u * l + 2u] = y[l + 64u];
    yl[4u * l + 3u] = y[l + 96u];
  }
  device const uchar* blk = A + (row0_base / QK + ib) * BPB;
  device const uchar* q1 = blk + q_offset_l;
  device const uchar* q2 = q1 + 32u;
  device const uchar* qh = blk + 128u + q_offset_h;
  device const char* sc = (device const char*)(blk + 192u) + is;
  device const half* dh = (device const half*)(blk + 208);
  float sumf[4] = {0.f, 0.f, 0.f, 0.f};
  for (uint row = 0u; row < 4u; row++) {
    float4 sums = float4(0.0f);
    #pragma unroll
    for (uint l = 0u; l < 4u; l++) {
      sums[0] += yl[4u * l + 0u] * float(char((q1[l] & 0x0Fu) | ((qh[l] & kmask1) << 4u)) - 32);
      sums[1] += yl[4u * l + 1u] * float(char((q2[l] & 0x0Fu) | ((qh[l] & kmask2) << 2u)) - 32);
      sums[2] += yl[4u * l + 2u] * float(char((q1[l] >> 4u) | ((qh[l] & kmask3) << 0u)) - 32);
      sums[3] += yl[4u * l + 3u] * float(char((q2[l] >> 4u) | ((qh[l] & kmask4) >> 2u)) - 32);
    }
    sumf[row] += float(dh[0]) * (sums[0] * float(sc[0]) + sums[1] * float(sc[2]) +
                                 sums[2] * float(sc[4]) + sums[3] * float(sc[6]));
    q1 += row_bytes; q2 += row_bytes; qh += row_bytes; sc += row_bytes; dh += row_bytes / 2u;
  }
  *a0 += sumf[0]; *a1 += sumf[1]; *a2 += sumf[2]; *a3 += sumf[3];
}
"#;

/// Loads and cooperative fragments of Q6_K weights, part 6.
pub const Q6K_PART_6: &'static str = r#"inline void ksearch_q6k_coop_frag_nr4_dev(
    device const uchar* A, uint row0_base, uint cols, uint ib,
    device const half* x, uint lane,
    thread float* a0, thread float* a1, thread float* a2, thread float* a3) {
  constexpr uint QK = 256u;
  constexpr uint BPB = 210u;
  constexpr uchar kmask1 = 0x03u;
  constexpr uchar kmask2 = 0x0Cu;
  constexpr uchar kmask3 = 0x30u;
  constexpr uchar kmask4 = 0xC0u;
  uint tid = lane / 2u;
  uint ip = tid / 8u;
  uint il = tid % 8u;
  uint l0 = 4u * il;
  uint is = 8u * ip + l0 / 16u;
  uint y_offset = 128u * ip + l0;
  uint q_offset_l = 64u * ip + l0;
  uint q_offset_h = 32u * ip + l0;
  uint bpr = cols / QK;
  uint row_bytes = bpr * BPB;
  device const half* y = x + ib * QK + y_offset;
  float yl[16];
  ksearch_q6k_load_y_dev(y, yl);
  device const uchar* blk = A + (row0_base / QK + ib) * BPB;
  device const uchar* q1 = blk + q_offset_l;
  device const uchar* q2 = q1 + 32u;
  device const uchar* qh = blk + 128u + q_offset_h;
  device const char* sc = (device const char*)(blk + 192u) + is;
  device const half* dh = (device const half*)(blk + 208);
  float sumf[4] = {0.f, 0.f, 0.f, 0.f};
  for (uint row = 0u; row < 4u; row++) {
    float4 sums = float4(0.0f);
    #pragma unroll
    for (uint l = 0u; l < 4u; l++) {
      sums[0] += yl[4u * l + 0u] * float(char((q1[l] & 0x0Fu) | ((qh[l] & kmask1) << 4u)) - 32);
      sums[1] += yl[4u * l + 1u] * float(char((q2[l] & 0x0Fu) | ((qh[l] & kmask2) << 2u)) - 32);
      sums[2] += yl[4u * l + 2u] * float(char((q1[l] >> 4u) | ((qh[l] & kmask3) << 0u)) - 32);
      sums[3] += yl[4u * l + 3u] * float(char((q2[l] >> 4u) | ((qh[l] & kmask4) >> 2u)) - 32);
    }
    sumf[row] += float(dh[0]) * (sums[0] * float(sc[0]) + sums[1] * float(sc[2]) +
                                 sums[2] * float(sc[4]) + sums[3] * float(sc[6]));
    q1 += row_bytes; q2 += row_bytes; qh += row_bytes; sc += row_bytes; dh += row_bytes / 2u;
  }
  *a0 += sumf[0]; *a1 += sumf[1]; *a2 += sumf[2]; *a3 += sumf[3];
}
"#;

/// Loads and cooperative fragments of Q6_K weights, part 7.
pub const Q6K_PART_7: &'static str = r#"


"#;

/// Loads and cooperative fragments of Q6_K weights.
pub open spec fn q6k_helper() -> Seq<char> {
    Q6K_PART_1@ + Q6K_PART_2@ + Q6K_PART_3@ + Q6K_PART_4@ + Q6K_PART_5@ + Q6K_PART_6@ + Q6K_PART_7@
}

pub fn q6k_helper_text() -> (r: String)
    ensures
        r@ == q6k_helper(),
{
    String::from_str(Q6K_PART_1).concat(Q6K_PART_2).concat(Q6K_PART_3).concat(Q6K_PART_4)
        .concat(Q6K_PART_5).concat(Q6K_PART_6).concat(Q6K_PART_7)
}

/// Loads and packing of Q4_0 blocks, part 1.
pub const Q40_PART_1: &'static str = r#"
constant uint Q40_QK = 32u;
constant uint Q40_BS = 18u;
inline float ksearch_q40_at(device const uchar* blk, float d, uint j) {
  uchar q = blk[2u + (j & 15u)];
  int qv = (j < 16u) ? int(q & 0x0Fu) - 8 : int(q >> 4u) - 8;
  return float(qv) * d;
}
inline float ksearch_load_q40(device const uchar* A, uint idx) {
  uint block = idx / Q40_QK;
  uint j = idx % Q40_QK;
  device const uchar* blk = A + block * Q40_BS;
  float d = float(*(device const half*)blk);
  return ksearch_q40_at(blk, d, j);
}
inline float4 ksearch_load_q404(device const uchar* A, uint idx) {
  uint block = idx / Q40_QK;
  uint j = idx % Q40_QK;
  device const uchar* blk = A + block * Q40_BS;
  float d = float(*(device const half*)blk);
  return float4(ksearch_q40_at(blk, d, j),
                ksearch_q40_at(blk, d, j + 1u),
                ksearch_q40_at(blk, d, j + 2u),
                ksearch_q40_at(blk, d, j + 3u));
}
"#;

/// Loads and packing of Q4_0 blocks, part 2.
pub const Q40_PART_2: &'static str = r#"inline void ksearch_pack_q40(
    device uchar* out, uint block, device const half* src, uint src_elem) {
  float vals[32];
  float max_abs = 0.0f;
  for (uint d = 0u; d < 32u; d++) {
    float v = float(src[src_elem + d]);
    vals[d] = v;
    max_abs = max(max_abs, fabs(v));
  }
  float scale = (max_abs > 0.0f) ? (max_abs / 7.0f) : 1.0f;
  float inv = 1.0f / scale;
  device uchar* blk = out + block * Q40_BS;
  *((device half*)blk) = half(scale);
  for (uint i = 0u; i < 16u; i++) {
    int q_lo = clamp(int(round(vals[i] * inv)) + 8, 0, 15);
    int q_hi = clamp(int(round(vals[i + 16u] * inv)) + 8, 0, 15);
    blk[2u + i] = uchar(q_lo | (q_hi << 4));
  }
}
inline void ksearch_pack_q40_th(
    device uchar* out, uint block, thread const float* src, uint src_off) {
  float vals[32];
  float max_abs = 0.0f;
  for (uint d = 0u; d < 32u; d++) {
    // Match F16 store/load round-trip before pack.
    float v = float(half(src[src_off + d]));
    vals[d] = v;
    max_abs = max(max_abs, fabs(v));
  }
  float scale = (max_abs > 0.0f) ? (max_abs / 7.0f) : 1.0f;
  float inv = 1.0f / scale;
  device uchar* blk = out + block * Q40_BS;
  *((device half*)blk) = half(scale);
  for (uint i = 0u; i < 16u; i++) {
    int q_lo = clamp(int(round(vals[i] * inv)) + 8, 0, 15);
    int q_hi = clamp(int(round(vals[i + 16u] * inv)) + 8, 0, 15);
    blk[2u + i] = uchar(q_lo | (q_hi << 4));
  }
}
"#;

/// Loads and packing of Q4_0 blocks, part 3.
pub const Q40_PART_3: &'static str = r#"inline void ksearch_dequant_q40_to_tg(
    threadgroup float* dst, device const uchar* A, uint src_elem) {
  uint block = src_elem / Q40_QK;
  device const uchar* blk = A + block * Q40_BS;
  float d = float(*(device const half*)blk);
  for (uint j = 0u; j < 32u; j++) {
    dst[j] = ksearch_q40_at(blk, d, j);
  }
}
"#;

/// Loads and packing of Q4_0 blocks.
pub open spec fn q40_helper() -> Seq<char> {
    Q40_PART_1@ + Q40_PART_2@ + Q40_PART_3@
}

pub fn q40_helper_text() -> (r: String)
    ensures
        r@ == q40_helper(),
{
    String::from_str(Q40_PART_1).concat(Q40_PART_2).concat(Q40_PART_3)
}

} // verus!
