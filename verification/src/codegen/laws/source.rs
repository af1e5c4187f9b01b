//! The meaning of kernel source: what an expression of the Metal language that the renderer writes
//! evaluates to, and that it is what the expression of the kernel stands for.

use vstd::prelude::*;
use vstd::string::*;

use crate::codegen::laws::machine::{device_at, index_op, shared_at, Arith, Lane, Regs};
use crate::ir::dtype::DType;
use crate::ir::kernel::{BinOp, UnaryOp};
use crate::text::dec;

verus! {

/// The parameters of a kernel: how many buffers it reads and writes, and what their elements are.
pub ghost struct Params {
    pub n_in: u32,
    pub n_out: u32,
    pub kind: spec_fn(u32) -> DType,
}

/// An array: a device buffer, one of the group, or one of the thread.
pub ghost enum Arr {
    Device(u32),
    Group(u32),
    Own(u32),
}

/// A word of the source.
pub ghost enum Word {
    Gid,
    Lid,
    Loop(u32),
    Real(u32),
    Unsigned(u32),
    Count(u32),
    Whole(u32),
    Literal(Seq<char>),
    Array(Arr),
}

/// A function that the source calls.
pub ghost enum Fun {
    ToFloat,
    ToUint,
    ToFloat4,
    Float2,
    Float4,
    Dot,
    Max,
    Min,
    Exp,
    Tanh,
    Rsqrt,
    Sqrt,
    Floor,
    /// One element of a packed buffer.
    Load(DType),
    /// Several elements of a packed buffer, one behind the other.
    LoadTwo,
    LoadFour(DType),
    /// The products of 32 or 256 packed elements with as many others, added up.
    Dot32(bool),
    Dot256(bool),
}

/// An operator.
pub ghost enum Sign {
    Plus,
    Minus,
    Times,
    Over,
}

/// An expression of the source.
pub ghost enum Term {
    Word(Word),
    Brackets(Box<Term>),
    Element(Box<Term>, Box<Term>),
    /// The first or the second element of a vector.
    Member(Box<Term>, bool),
    Negated(Box<Term>),
    /// As many elements as `width` says, of an array of the group or of the device, in half or
    /// single precision.
    Vector { group: bool, half: bool, width: nat, at: Box<Term> },
    Infix(Sign, Box<Term>, Box<Term>),
    Call1(Fun, Box<Term>),
    Call2(Fun, Box<Term>, Box<Term>),
    Call4(Fun, Box<Term>, Box<Term>, Box<Term>, Box<Term>),
}

/// What an expression evaluates to.
pub ghost enum Val<V> {
    Float(V),
    Half(V),
    Uint(int),
    Floats(Seq<V>),
    Halves(Seq<V>),
    Pointer(Arr, int),
    /// It has no meaning.
    Nonsense,
}

/// How an array is called.
pub open spec fn array_name(k: Params, a: Arr) -> Seq<char> {
    match a {
        Arr::Device(b) => if b < k.n_in {
            "in"@ + dec(b as nat)
        } else if k.n_out <= 1 {
            "out"@
        } else {
            "out"@ + dec((b - k.n_in) as nat)
        },
        Arr::Group(id) => "tg"@ + dec(id as nat),
        Arr::Own(id) => "th"@ + dec(id as nat),
    }
}

pub open spec fn word_text(k: Params, w: Word) -> Seq<char> {
    match w {
        Word::Gid => "gid"@,
        Word::Lid => "lid"@,
        Word::Loop(id) => "f"@ + dec(id as nat),
        Word::Real(id) => "v"@ + dec(id as nat),
        Word::Unsigned(id) => "u"@ + dec(id as nat),
        Word::Count(n) => dec(n as nat) + "u"@,
        Word::Whole(n) => dec(n as nat) + ".0f"@,
        Word::Literal(t) => t + "f"@,
        Word::Array(a) => array_name(k, a),
    }
}

pub open spec fn fun_text(f: Fun) -> Seq<char> {
    match f {
        Fun::ToFloat => "float"@,
        Fun::ToUint => "uint"@,
        Fun::ToFloat4 => "float4"@,
        Fun::Float2 => "float2"@,
        Fun::Float4 => "float4"@,
        Fun::Dot => "dot"@,
        Fun::Max => "max"@,
        Fun::Min => "min"@,
        Fun::Exp => "exp"@,
        Fun::Tanh => "precise::tanh"@,
        Fun::Rsqrt => "rsqrt"@,
        Fun::Sqrt => "sqrt"@,
        Fun::Floor => "floor"@,
        Fun::Load(DType::Q4K) => "ksearch_load_q4k"@,
        Fun::Load(DType::Q6K) => "ksearch_load_q6k"@,
        Fun::Load(_) => "ksearch_load_q40"@,
        Fun::LoadTwo => "ksearch_load_q4k2"@,
        Fun::LoadFour(DType::Q4K) => "ksearch_load_q4k4"@,
        Fun::LoadFour(_) => "ksearch_load_q404"@,
        Fun::Dot32(true) => "ksearch_dot_q4k32"@,
        Fun::Dot32(false) => "ksearch_dot_q4k32_dev"@,
        Fun::Dot256(true) => "ksearch_dot_q4k256"@,
        Fun::Dot256(false) => "ksearch_dot_q4k256_dev"@,
    }
}

pub open spec fn sign_text(s: Sign) -> Seq<char> {
    match s {
        Sign::Plus => " + "@,
        Sign::Minus => " - "@,
        Sign::Times => " * "@,
        Sign::Over => " / "@,
    }
}

/// The cast in front of a vector of elements.
pub open spec fn cast_text(group: bool, half: bool, width: nat) -> Seq<char> {
    if group {
        if width == 4 {
            "*(threadgroup const float4*)"@
        } else {
            "*(threadgroup const float2*)"@
        }
    } else if half {
        if width == 4 {
            "*(device const half4*)"@
        } else {
            "*(device const half2*)"@
        }
    } else {
        if width == 4 {
            "*(device const float4*)"@
        } else {
            "*(device const float2*)"@
        }
    }
}

/// An expression as it is written.
pub open spec fn written(k: Params, t: Term) -> Seq<char>
    decreases t,
{
    match t {
        Term::Word(w) => word_text(k, w),
        Term::Brackets(a) => "("@ + written(k, *a) + ")"@,
        Term::Element(a, i) => written(k, *a) + "["@ + written(k, *i) + "]"@,
        Term::Member(a, second) => written(k, *a) + (if second {
            ".y"@
        } else {
            ".x"@
        }),
        Term::Negated(a) => "-"@ + written(k, *a),
        Term::Vector { group, half, width, at } => cast_text(group, half, width) + written(k, *at),
        Term::Infix(s, a, b) => written(k, *a) + sign_text(s) + written(k, *b),
        Term::Call1(f, a) => fun_text(f) + "("@ + written(k, *a) + ")"@,
        Term::Call2(f, a, b) => fun_text(f) + "("@ + written(k, *a) + ", "@ + written(k, *b)
            + ")"@,
        Term::Call4(f, a, b, c, d) => fun_text(f) + "("@ + written(k, *a) + ", "@ + written(k, *b)
            + ", "@ + written(k, *c) + ", "@ + written(k, *d) + ")"@,
    }
}

/// How loosely an expression is bound: not at all, by an operator in front, as a product, as a sum.
pub open spec fn looseness(t: Term) -> int {
    match t {
        Term::Negated(_) | Term::Vector { .. } => 1,
        Term::Infix(Sign::Times, _, _) | Term::Infix(Sign::Over, _, _) => 2,
        Term::Infix(_, _, _) => 3,
        _ => 0,
    }
}

/// Whether the written expression is read as what it is: every operand is bound more tightly than
/// its operator, or as tightly where it stands on the left.
pub open spec fn grammatical(t: Term) -> bool
    decreases t,
{
    match t {
        Term::Word(_) => true,
        Term::Brackets(a) => grammatical(*a),
        Term::Element(a, i) => looseness(*a) == 0 && grammatical(*a) && grammatical(*i),
        Term::Member(a, _) => looseness(*a) == 0 && grammatical(*a),
        Term::Negated(a) => looseness(*a) <= 1 && grammatical(*a),
        Term::Vector { group, half, width, at } => (width == 2 || width == 4) && looseness(*at) <= 1
            && grammatical(*at),
        Term::Infix(s, a, b) => {
            &&& looseness(*a) <= looseness(t)
            &&& looseness(*b) < looseness(t)
            &&& grammatical(*a)
            &&& grammatical(*b)
        },
        Term::Call1(_, a) => grammatical(*a),
        Term::Call2(_, a, b) => grammatical(*a) && grammatical(*b),
        Term::Call4(_, a, b, c, d) => grammatical(*a) && grammatical(*b) && grammatical(*c)
            && grammatical(*d),
    }
}

/// What a thread of a kernel sees and holds while it evaluates.
#[verifier::reject_recursive_types(V)]
pub ghost struct Scene<V> {
    pub k: Params,
    pub ar: Arith<V>,
    pub l: Lane<V>,
    pub r: Regs<V>,
    /// What a literal stands for.
    pub read: spec_fn(Seq<char>) -> V,
}

impl<V> Scene<V> {
    /// Whether an expression is read as what it is and evaluates to an index.
    pub open spec fn is_index(self, t: Term, i: int) -> bool {
        grammatical(t) && self.eval(t) == Val::<V>::Uint(i)
    }

    /// The element of a device buffer, whatever it is packed as.
    pub open spec fn logical(self, b: u32, i: int) -> V {
        device_at(self.l, self.r, b, i)
    }

    /// An element of an array as it is read by itself: packed buffers have none.
    pub open spec fn element(self, a: Arr, i: int) -> Val<V> {
        match a {
            Arr::Device(b) => match (self.k.kind)(b) {
                DType::F32 => Val::Float(self.logical(b, i)),
                DType::F16 => Val::Half(self.logical(b, i)),
                _ => Val::Nonsense,
            },
            Arr::Group(id) => Val::Float(shared_at(self.l, self.r, id, i)),
            Arr::Own(id) => Val::Float(self.r.local[(id, i)]),
        }
    }

    /// Elements of an array, one behind the other.
    pub open spec fn vector(self, group: bool, half: bool, width: nat, a: Arr, i: int) -> Val<V> {
        match a {
            Arr::Group(id) => if group {
                Val::Floats(Seq::new(width, |n: int| shared_at(self.l, self.r, id, i + n)))
            } else {
                Val::Nonsense
            },
            Arr::Device(b) => if group {
                Val::Nonsense
            } else if half && (self.k.kind)(b) == DType::F16 {
                Val::Halves(Seq::new(width, |n: int| self.logical(b, i + n)))
            } else if !half && (self.k.kind)(b) == DType::F32 {
                Val::Floats(Seq::new(width, |n: int| self.logical(b, i + n)))
            } else {
                Val::Nonsense
            },
            Arr::Own(_) => Val::Nonsense,
        }
    }

    /// The products of packed elements and others, added up.
    pub open spec fn packed_dot(
        self,
        n: nat,
        staged: bool,
        a: Val<V>,
        i: Val<V>,
        x: Val<V>,
        j: Val<V>,
    ) -> Val<V> {
        match (a, i, x, j) {
            (
                Val::Pointer(Arr::Device(b), o),
                Val::Uint(i),
                Val::Pointer(Arr::Group(id), p),
                Val::Uint(j),
            ) => if staged && (self.k.kind)(b) == DType::Q4K {
                Val::Float(
                    self.ar.dot(
                        |d: int| self.logical(b, o + i + d),
                        |d: int| shared_at(self.l, self.r, id, p + j + d),
                        n,
                    ),
                )
            } else {
                Val::Nonsense
            },
            (
                Val::Pointer(Arr::Device(b), o),
                Val::Uint(i),
                Val::Pointer(Arr::Device(c), p),
                Val::Uint(j),
            ) => if !staged && (self.k.kind)(b) == DType::Q4K && (self.k.kind)(c) == DType::F16 {
                Val::Float(
                    self.ar.dot(
                        |d: int| self.logical(b, o + i + d),
                        |d: int| self.logical(c, p + j + d),
                        n,
                    ),
                )
            } else {
                Val::Nonsense
            },
            _ => Val::Nonsense,
        }
    }

    pub open spec fn infix(self, s: Sign, a: Val<V>, b: Val<V>) -> Val<V> {
        let op = match s {
            Sign::Plus => BinOp::Add,
            Sign::Minus => BinOp::Sub,
            Sign::Times => BinOp::Mul,
            Sign::Over => BinOp::Div,
        };
        match (a, b) {
            (Val::Float(x), Val::Float(y)) => Val::Float((self.ar.binary)(op, x, y)),
            (Val::Uint(x), Val::Uint(y)) => Val::Uint(index_op(op, x, y)),
            (Val::Pointer(p, o), Val::Uint(i)) => if s is Plus {
                Val::Pointer(p, o + i)
            } else {
                Val::Nonsense
            },
            _ => Val::Nonsense,
        }
    }

    pub open spec fn call1(self, f: Fun, a: Val<V>) -> Val<V> {
        match (f, a) {
            (Fun::ToFloat, Val::Float(x)) => Val::Float(x),
            (Fun::ToFloat, Val::Half(x)) => Val::Float(x),
            (Fun::ToFloat, Val::Uint(i)) => Val::Float((self.ar.of_index)(i)),
            (Fun::ToUint, Val::Float(x)) => Val::Uint((self.ar.to_index)(x)),
            (Fun::ToFloat4, Val::Halves(v)) => if v.len() == 4 {
                Val::Floats(v)
            } else {
                Val::Nonsense
            },
            (Fun::Exp, Val::Float(x)) => Val::Float((self.ar.unary)(UnaryOp::Exp, x)),
            (Fun::Tanh, Val::Float(x)) => Val::Float((self.ar.unary)(UnaryOp::Tanh, x)),
            (Fun::Rsqrt, Val::Float(x)) => Val::Float((self.ar.unary)(UnaryOp::Rsqrt, x)),
            (Fun::Sqrt, Val::Float(x)) => Val::Float((self.ar.unary)(UnaryOp::Sqrt, x)),
            (Fun::Floor, Val::Float(x)) => Val::Float((self.ar.unary)(UnaryOp::Floor, x)),
            _ => Val::Nonsense,
        }
    }

    pub open spec fn call2(self, f: Fun, a: Val<V>, b: Val<V>) -> Val<V> {
        match (f, a, b) {
            (Fun::Max, Val::Float(x), Val::Float(y)) => Val::Float(
                (self.ar.binary)(BinOp::Max, x, y),
            ),
            (Fun::Min, Val::Float(x), Val::Float(y)) => Val::Float(
                (self.ar.binary)(BinOp::Min, x, y),
            ),
            (Fun::Max, Val::Uint(x), Val::Uint(y)) => Val::Uint(index_op(BinOp::Max, x, y)),
            (Fun::Min, Val::Uint(x), Val::Uint(y)) => Val::Uint(index_op(BinOp::Min, x, y)),
            (Fun::Float2, Val::Float(x), Val::Float(y)) => Val::Floats(seq![x, y]),
            (Fun::Dot, Val::Floats(x), Val::Floats(y)) => if x.len() == y.len() {
                Val::Float(self.ar.dot(|n: int| x[n], |n: int| y[n], x.len()))
            } else {
                Val::Nonsense
            },
            (Fun::Load(d), Val::Pointer(Arr::Device(b), o), Val::Uint(i)) => if (self.k.kind)(b)
                == d && (d is Q4K || d is Q6K || d is Q40) {
                Val::Float(self.logical(b, o + i))
            } else {
                Val::Nonsense
            },
            (Fun::LoadTwo, Val::Pointer(Arr::Device(b), o), Val::Uint(i)) => if (self.k.kind)(b)
                == DType::Q4K {
                Val::Floats(Seq::new(2, |n: int| self.logical(b, o + i + n)))
            } else {
                Val::Nonsense
            },
            (Fun::LoadFour(d), Val::Pointer(Arr::Device(b), o), Val::Uint(i)) => if (self.k.kind)(b)
                == d && (d is Q4K || d is Q40) {
                Val::Floats(Seq::new(4, |n: int| self.logical(b, o + i + n)))
            } else {
                Val::Nonsense
            },
            _ => Val::Nonsense,
        }
    }

    pub open spec fn call4(self, f: Fun, a: Val<V>, b: Val<V>, c: Val<V>, d: Val<V>) -> Val<V> {
        match f {
            Fun::Float4 => match (a, b, c, d) {
                (Val::Float(w), Val::Float(x), Val::Float(y), Val::Float(z)) => Val::Floats(
                    seq![w, x, y, z],
                ),
                _ => Val::Nonsense,
            },
            Fun::Dot32(staged) => self.packed_dot(32, staged, a, b, c, d),
            Fun::Dot256(staged) => self.packed_dot(256, staged, a, b, c, d),
            _ => Val::Nonsense,
        }
    }

    /// What an expression evaluates to.
    pub open spec fn eval(self, t: Term) -> Val<V>
        decreases t,
    {
        match t {
            Term::Word(w) => match w {
                Word::Gid => Val::Uint(self.l.gid),
                Word::Lid => Val::Uint(self.l.lid),
                Word::Loop(id) => Val::Uint(self.r.u[id]),
                Word::Unsigned(id) => Val::Uint(self.r.u[id]),
                Word::Real(id) => Val::Float(self.r.f[id]),
                Word::Count(n) => Val::Uint(n as int),
                Word::Whole(n) => Val::Float((self.ar.of_index)(n as int)),
                Word::Literal(t) => Val::Float((self.read)(t)),
                Word::Array(a) => Val::Pointer(a, 0),
            },
            Term::Brackets(a) => self.eval(*a),
            Term::Element(a, i) => match (self.eval(*a), self.eval(*i)) {
                (Val::Pointer(p, o), Val::Uint(i)) => self.element(p, o + i),
                _ => Val::Nonsense,
            },
            Term::Member(a, second) => match self.eval(*a) {
                Val::Floats(v) => Val::Float(
                    v[if second {
                        1
                    } else {
                        0
                    }],
                ),
                Val::Halves(v) => Val::Half(
                    v[if second {
                        1
                    } else {
                        0
                    }],
                ),
                _ => Val::Nonsense,
            },
            Term::Negated(a) => match self.eval(*a) {
                Val::Float(x) => Val::Float((self.ar.unary)(UnaryOp::Neg, x)),
                _ => Val::Nonsense,
            },
            Term::Vector { group, half, width, at } => match self.eval(*at) {
                Val::Pointer(p, o) => self.vector(group, half, width, p, o),
                _ => Val::Nonsense,
            },
            Term::Infix(s, a, b) => self.infix(s, self.eval(*a), self.eval(*b)),
            Term::Call1(f, a) => self.call1(f, self.eval(*a)),
            Term::Call2(f, a, b) => self.call2(f, self.eval(*a), self.eval(*b)),
            Term::Call4(f, a, b, c, d) => self.call4(
                f,
                self.eval(*a),
                self.eval(*b),
                self.eval(*c),
                self.eval(*d),
            ),
        }
    }
}

} // verus!
