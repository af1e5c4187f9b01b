//! Element types, tensor shapes and the sizes of packed rows.

use vstd::prelude::*;

verus! {

/// The index of a node of a graph.
#[derive(Clone, Copy, Debug, PartialEq, Eq, Hash, Structural)]
pub struct TensorId(pub u32);

/// How the elements of a tensor are stored.
#[derive(Clone, Copy, Debug, PartialEq, Eq, Structural)]
pub enum DType {
    F32,
    F16,
    BF16,
    /// 256 elements in 144 bytes. Logical shapes count elements.
    Q4K,
    /// 256 elements in 176 bytes.
    Q5K,
    /// 256 elements in 210 bytes.
    Q6K,
    /// 32 elements in 18 bytes.
    Q40,
}

/// A single-precision constant, told apart by how it is obtained.
#[derive(Clone, Copy, Debug, PartialEq, Eq, Structural)]
pub enum Scalar {
    /// The number with this bit pattern.
    Bits(u32),
    /// The number nearest to this integer.
    Int(u64),
    /// One divided by the number nearest to this integer.
    RecipInt(u64),
    /// One divided by the number with this bit pattern.
    RecipBits(u32),
}

/// The bit pattern of zero.
pub const ZERO: u32 = 0;

/// The bit pattern of one.
pub const ONE: u32 = 0x3F800000;

/// The bit pattern of one half.
pub const HALF: u32 = 0x3F000000;

/// The bit pattern of 20.
pub const TWENTY: u32 = 0x41A00000;

/// The bit pattern of -20.
pub const MINUS_TWENTY: u32 = 0xC1A00000;

/// The bit pattern of 0.044715.
pub const GELU_CUBIC: u32 = 0x3D372713;

/// The bit pattern of 0.79788456, the square root of two over pi.
pub const SQRT_2_OVER_PI: u32 = 0x3F4C422A;

/// The bit pattern of -1e30, below every score.
pub const LOWEST: u32 = 0xF149F2CA;

/// What can be wrong with a graph operation.
#[derive(Clone, Copy, Debug, PartialEq, Eq, Structural)]
pub enum IrError {
    BadTensorId,
    ShapeMismatch,
    BadAxis,
}

impl IrError {
    /// The message for the error.
    pub fn message(self) -> (r: &'static str)
        ensures
            r@ == (match self {
                IrError::BadTensorId => "bad tensor id"@,
                IrError::ShapeMismatch => "shape / dtype mismatch"@,
                IrError::BadAxis => "bad reduce axis"@,
            }),
    {
        match self {
            IrError::BadTensorId => "bad tensor id",
            IrError::ShapeMismatch => "shape / dtype mismatch",
            IrError::BadAxis => "bad reduce axis",
        }
    }
}

impl DType {
    /// Whether elements are plain floating-point numbers that a kernel computes with.
    #[verifier::allow_in_spec]
    pub fn is_float(self) -> bool
        returns
            self == DType::F32 || self == DType::F16,
    {
        match self {
            DType::F32 | DType::F16 => true,
            _ => false,
        }
    }

    /// Bytes per element; zero for the packed types, whose elements share blocks.
    #[verifier::allow_in_spec]
    pub fn size_bytes(self) -> usize
        returns
            (match self {
                DType::F32 => 4usize,
                DType::F16 | DType::BF16 => 2usize,
                _ => 0usize,
            }),
    {
        match self {
            DType::F32 => 4,
            DType::F16 | DType::BF16 => 2,
            _ => 0,
        }
    }

    /// The type's name in kernel source.
    pub open spec fn msl_name(self) -> Seq<char> {
        match self {
            DType::F32 => "float"@,
            DType::F16 => "half"@,
            DType::BF16 => "bfloat"@,
            _ => "uchar"@,
        }
    }

    pub fn msl(self) -> (r: &'static str)
        ensures
            r@ == self.msl_name(),
    {
        match self {
            DType::F32 => "float",
            DType::F16 => "half",
            DType::BF16 => "bfloat",
            _ => "uchar",
        }
    }

    /// The type's own name, as it appears in messages.
    pub open spec fn label(self) -> Seq<char> {
        match self {
            DType::F32 => "F32"@,
            DType::F16 => "F16"@,
            DType::BF16 => "BF16"@,
            DType::Q4K => "Q4K"@,
            DType::Q5K => "Q5K"@,
            DType::Q6K => "Q6K"@,
            DType::Q40 => "Q40"@,
        }
    }

    pub fn label_text(self) -> (r: &'static str)
        ensures
            r@ == self.label(),
    {
        match self {
            DType::F32 => "F32",
            DType::F16 => "F16",
            DType::BF16 => "BF16",
            DType::Q4K => "Q4K",
            DType::Q5K => "Q5K",
            DType::Q6K => "Q6K",
            DType::Q40 => "Q40",
        }
    }
}

/// Bytes of one Q4_0 row of `hd` elements: 18 for every 32.
pub fn q40_row_bytes(hd: usize) -> (r: usize)
    requires
        hd % 32 == 0,
    ensures
        r == hd / 32 * 18,
        r * 32 == hd * 18,
{
    assert(hd / 32 * 18 <= hd);
    (hd / 32) * 18
}

/// Bytes of `max_t` Q4_0 rows of `hd` elements.
pub fn q40_nbytes(max_t: usize, hd: usize) -> (r: usize)
    requires
        hd % 32 == 0,
        max_t * (hd / 32 * 18) <= usize::MAX,
    ensures
        r == max_t * (hd / 32 * 18),
{
    max_t * q40_row_bytes(hd)
}

/// Bytes of `nelem` Q4_K elements: 144 for every 256.
pub fn q4k_nbytes(nelem: usize) -> (r: usize)
    requires
        nelem % 256 == 0,
    ensures
        r * 256 == nelem * 144,
{
    assert(nelem / 256 * 144 <= nelem);
    (nelem / 256) * 144
}

/// Bytes of `nelem` Q5_K elements: 176 for every 256.
pub fn q5k_nbytes(nelem: usize) -> (r: usize)
    requires
        nelem % 256 == 0,
    ensures
        r * 256 == nelem * 176,
{
    assert(nelem / 256 * 176 <= nelem);
    (nelem / 256) * 176
}

/// Bytes of `nelem` Q6_K elements: 210 for every 256.
pub fn q6k_nbytes(nelem: usize) -> (r: usize)
    requires
        nelem % 256 == 0,
    ensures
        r * 256 == nelem * 210,
{
    assert(nelem / 256 * 210 <= nelem);
    (nelem / 256) * 210
}

/// The length of each axis of a tensor.
#[derive(Clone, Debug, PartialEq, Eq)]
pub struct Shape(pub Vec<usize>);

/// The product of the axes.
pub open spec fn product(s: Seq<usize>) -> int
    decreases s.len(),
{
    if s.len() == 0 {
        1
    } else {
        product(s.drop_last()) * s.last()
    }
}

/// Whether the product can be formed from the left without leaving `usize`.
pub open spec fn product_fits(s: Seq<usize>) -> bool {
    forall|k: int| 0 <= k <= s.len() ==> #[trigger] product(s.take(k)) <= usize::MAX
}

impl View for Shape {
    type V = Seq<usize>;

    open spec fn view(&self) -> Seq<usize> {
        self.0@
    }
}

impl Shape {
    /// The number of elements.
    pub fn numel(&self) -> (r: usize)
        requires
            product_fits(self@),
        ensures
            r == product(self@),
    {
        let mut p: usize = 1;
        let mut i: usize = 0;
        assert(self@.take(0) =~= Seq::<usize>::empty());
        while i < self.0.len()
            invariant
                i <= self.0.len(),
                p == product(self@.take(i as int)),
                product_fits(self@),
            decreases self.0.len() - i,
        {
            let ghost t = self@.take(i as int + 1);
            assert(t.drop_last() =~= self@.take(i as int));
            assert(t.last() == self@[i as int]);
            assert(product(t) <= usize::MAX);
            p = p * self.0[i];
            i += 1;
        }
        assert(self@.take(self@.len() as int) =~= self@);
        p
    }

    /// The number of axes.
    #[verifier::when_used_as_spec(spec_rank)]
    pub fn rank(&self) -> (r: usize)
        ensures
            r == self.spec_rank(),
    {
        self.0.len()
    }

    pub open spec fn spec_rank(&self) -> usize {
        self.0.len()
    }

    /// Whether two shapes have the same axes.
    pub fn same(&self, other: &Shape) -> (r: bool)
        ensures
            r == (self@ == other@),
    {
        if self.0.len() != other.0.len() {
            return false;
        }
        let mut i: usize = 0;
        while i < self.0.len()
            invariant
                i <= self.0.len(),
                self@.len() == other@.len(),
                forall|k: int| 0 <= k < i ==> self@[k] == other@[k],
            decreases self.0.len() - i,
        {
            if self.0[i] != other.0[i] {
                return false;
            }
            i += 1;
        }
        assert(self@ =~= other@);
        true
    }

    /// A copy with the same axes.
    pub fn dup(&self) -> (r: Shape)
        ensures
            r@ == self@,
    {
        let mut v: Vec<usize> = Vec::new();
        let mut i: usize = 0;
        while i < self.0.len()
            invariant
                i <= self.0.len(),
                v@ == self@.take(i as int),
            decreases self.0.len() - i,
        {
            v.push(self.0[i]);
            i += 1;
        }
        assert(self@.take(self@.len() as int) =~= self@);
        Shape(v)
    }
}

/// The shape of a vector of `n` elements.
pub fn vector_shape(n: usize) -> (r: Shape)
    ensures
        r@ == seq![n],
{
    let mut v: Vec<usize> = Vec::new();
    v.push(n);
    assert(v@ =~= seq![n]);
    Shape(v)
}

/// The shape of a matrix.
pub fn matrix_shape(rows: usize, cols: usize) -> (r: Shape)
    ensures
        r@ == seq![rows, cols],
{
    let mut v: Vec<usize> = Vec::new();
    v.push(rows);
    v.push(cols);
    assert(v@ =~= seq![rows, cols]);
    Shape(v)
}

} // verus!
