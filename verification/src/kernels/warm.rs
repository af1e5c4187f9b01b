//! Which products are tuned beforehand, under which kind they are kept, and which of three timings
//! counts.

use vstd::prelude::*;

use crate::ir::dtype::{q4k_nbytes, q6k_nbytes, DType};

verus! {

/// Elements of the largest matrix that is tuned beforehand.
pub const MAX_ELEMS: usize = 14_000_000;

/// The kind of kernel under which the tiling for weights of this type is kept.
pub open spec fn plan_kind_of(weight: DType) -> Seq<char> {
    match weight {
        DType::Q4K => "matvec_q4k"@,
        DType::Q6K => "matvec_q6k"@,
        DType::F16 => "matvec_f16_nr"@,
        _ => "matvec_f32"@,
    }
}

pub fn plan_kind(weight: DType) -> (r: &'static str)
    ensures
        r@ == plan_kind_of(weight),
{
    match weight {
        DType::Q4K => "matvec_q4k",
        DType::Q6K => "matvec_q6k",
        DType::F16 => "matvec_f16_nr",
        _ => "matvec_f32",
    }
}

/// Bytes of a matrix to tune with: none where it is empty, too large, not in whole blocks, or of a
/// type that is not tuned.
pub open spec fn warm_bytes_of(weight: DType, rows: usize, cols: usize) -> Option<int> {
    let n = rows * cols;
    if rows == 0 || cols == 0 || n > MAX_ELEMS {
        None
    } else {
        match weight {
            DType::Q4K => if n % 256 == 0 {
                Some(n / 256 * 144)
            } else {
                None
            },
            DType::Q6K => if n % 256 == 0 {
                Some(n / 256 * 210)
            } else {
                None
            },
            DType::F16 => Some(n * 2),
            DType::F32 => Some(n * 4),
            _ => None,
        }
    }
}

/// Bytes of a matrix to tune with.
pub fn warm_bytes(weight: DType, rows: usize, cols: usize) -> (r: Option<usize>)
    ensures
        match r {
            Some(b) => warm_bytes_of(weight, rows, cols) == Some(b as int),
            None => warm_bytes_of(weight, rows, cols) is None,
        },
{
    if rows == 0 || cols == 0 {
        return None;
    }
    let n: usize = match rows.checked_mul(cols) {
        Some(n) => n,
        None => {
            return None;
        },
    };
    if n > MAX_ELEMS {
        return None;
    }
    match weight {
        DType::Q4K => if n % 256 == 0 {
            Some(q4k_nbytes(n))
        } else {
            None
        },
        DType::Q6K => if n % 256 == 0 {
            Some(q6k_nbytes(n))
        } else {
            None
        },
        DType::F16 => Some(n * 2),
        DType::F32 => Some(n * 4),
        _ => None,
    }
}

/// The middle one of three timings.
pub fn median(a: u64, b: u64, c: u64) -> (r: u64)
    ensures
        r == a || r == b || r == c,
        (a <= r && b <= r) || (a <= r && c <= r) || (b <= r && c <= r),
        (a >= r && b >= r) || (a >= r && c >= r) || (b >= r && c >= r),
{
    let lo: u64 = if a < b {
        a
    } else {
        b
    };
    let hi: u64 = if a < b {
        b
    } else {
        a
    };
    if c < lo {
        lo
    } else if c > hi {
        hi
    } else {
        c
    }
}

} // verus!
