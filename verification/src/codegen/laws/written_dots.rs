//! The products that the renderer writes: every form evaluates to the sum of products that it
//! stands for.

use vstd::prelude::*;
use vstd::string::*;

use crate::codegen::laws::machine::{shared_at, Arith};
use crate::codegen::laws::source::{
    array_name, grammatical, looseness, written, Arr, Fun, Params, Scene, Sign, Term, Val, Word,
};
use crate::codegen::render::expr::{device_dot, staged_dot};
use crate::ir::dtype::DType;
use crate::text::{dec, digit};

verus! {

/// Products of equal factors add up to the same.
pub proof fn lemma_dot_same<V>(
    ar: Arith<V>,
    a: spec_fn(int) -> V,
    c: spec_fn(int) -> V,
    b: spec_fn(int) -> V,
    d: spec_fn(int) -> V,
    n: nat,
)
    requires
        forall|i: int| 0 <= i < n ==> #[trigger] a(i) == c(i),
        forall|i: int| 0 <= i < n ==> #[trigger] b(i) == d(i),
    ensures
        ar.dot(a, b, n) == ar.dot(c, d, n),
    decreases n,
{
    if n > 0 {
        lemma_dot_same(ar, a, c, b, d, (n - 1) as nat);
        assert(a(n - 1) == c(n - 1) && b(n - 1) == d(n - 1));
        if n == 1 {
            assert(a(0) == c(0) && b(0) == d(0));
        }
    }
}

/// Whether two texts are the same.
pub open spec fn same(a: Seq<char>, b: Seq<char>) -> bool {
    a == b
}

/// Texts are put together in any order.
pub proof fn lemma_cat()
    ensures
        forall|a: Seq<char>, b: Seq<char>, c: Seq<char>| #[trigger] (a + (b + c)) == (a + b) + c,
{
    assert forall|a: Seq<char>, b: Seq<char>, c: Seq<char>| #[trigger] (a + (b + c)) == (a + b)
        + c by {
        assert(a + (b + c) =~= (a + b) + c);
    }
}

proof fn lemma_add2(
    c: Seq<char>,
    p0: Seq<char>,
    p1: Seq<char>,
)
    ensures
        same(c + (p0 + p1), c + p0 + p1),
{
    assert(c + (p0 + p1) =~= c + p0 + p1);
}

proof fn lemma_add3(
    c: Seq<char>,
    p0: Seq<char>,
    p1: Seq<char>,
    p2: Seq<char>,
)
    ensures
        same(c + (p0 + p1 + p2), c + p0 + p1 + p2),
{
    lemma_cat();
}

proof fn lemma_add4(
    c: Seq<char>,
    p0: Seq<char>,
    p1: Seq<char>,
    p2: Seq<char>,
    p3: Seq<char>,
)
    ensures
        same(c + (p0 + p1 + p2 + p3), c + p0 + p1 + p2 + p3),
{
    lemma_cat();
}

proof fn lemma_add5(
    c: Seq<char>,
    p0: Seq<char>,
    p1: Seq<char>,
    p2: Seq<char>,
    p3: Seq<char>,
    p4: Seq<char>,
)
    ensures
        same(c + (p0 + p1 + p2 + p3 + p4), c + p0 + p1 + p2 + p3 + p4),
{
    lemma_cat();
}

proof fn lemma_add6(
    c: Seq<char>,
    p0: Seq<char>,
    p1: Seq<char>,
    p2: Seq<char>,
    p3: Seq<char>,
    p4: Seq<char>,
    p5: Seq<char>,
)
    ensures
        same(c + (p0 + p1 + p2 + p3 + p4 + p5), c + p0 + p1 + p2 + p3 + p4 + p5),
{
    lemma_cat();
}

proof fn lemma_add7(
    c: Seq<char>,
    p0: Seq<char>,
    p1: Seq<char>,
    p2: Seq<char>,
    p3: Seq<char>,
    p4: Seq<char>,
    p5: Seq<char>,
    p6: Seq<char>,
)
    ensures
        same(c + (p0 + p1 + p2 + p3 + p4 + p5 + p6), c + p0 + p1 + p2 + p3 + p4 + p5 + p6),
{
    lemma_cat();
}

proof fn lemma_add8(
    c: Seq<char>,
    p0: Seq<char>,
    p1: Seq<char>,
    p2: Seq<char>,
    p3: Seq<char>,
    p4: Seq<char>,
    p5: Seq<char>,
    p6: Seq<char>,
    p7: Seq<char>,
)
    ensures
        same(c + (p0 + p1 + p2 + p3 + p4 + p5 + p6 + p7), c + p0 + p1 + p2 + p3 + p4 + p5 + p6 + p7),
{
    lemma_cat();
}

proof fn lemma_add9(
    c: Seq<char>,
    p0: Seq<char>,
    p1: Seq<char>,
    p2: Seq<char>,
    p3: Seq<char>,
    p4: Seq<char>,
    p5: Seq<char>,
    p6: Seq<char>,
    p7: Seq<char>,
    p8: Seq<char>,
)
    ensures
        same(c + (p0 + p1 + p2 + p3 + p4 + p5 + p6 + p7 + p8), c + p0 + p1 + p2 + p3 + p4 + p5 + p6 + p7 + p8),
{
    lemma_cat();
}

proof fn lemma_add10(
    c: Seq<char>,
    p0: Seq<char>,
    p1: Seq<char>,
    p2: Seq<char>,
    p3: Seq<char>,
    p4: Seq<char>,
    p5: Seq<char>,
    p6: Seq<char>,
    p7: Seq<char>,
    p8: Seq<char>,
    p9: Seq<char>,
)
    ensures
        same(c + (p0 + p1 + p2 + p3 + p4 + p5 + p6 + p7 + p8 + p9), c + p0 + p1 + p2 + p3 + p4 + p5 + p6 + p7 + p8 + p9),
{
    lemma_cat();
}

proof fn lemma_add11(
    c: Seq<char>,
    p0: Seq<char>,
    p1: Seq<char>,
    p2: Seq<char>,
    p3: Seq<char>,
    p4: Seq<char>,
    p5: Seq<char>,
    p6: Seq<char>,
    p7: Seq<char>,
    p8: Seq<char>,
    p9: Seq<char>,
    p10: Seq<char>,
)
    ensures
        same(c + (p0 + p1 + p2 + p3 + p4 + p5 + p6 + p7 + p8 + p9 + p10), c + p0 + p1 + p2 + p3 + p4 + p5 + p6 + p7 + p8 + p9 + p10),
{
    lemma_cat();
}

proof fn lemma_small_counts()
    ensures
        dec(1) + "u"@ == "1u"@,
        dec(2) + "u"@ == "2u"@,
        dec(3) + "u"@ == "3u"@,
{
    reveal_strlit("u");
    reveal_strlit("1u");
    reveal_strlit("2u");
    reveal_strlit("3u");
    assert(dec(1) =~= seq![digit(1)]);
    assert(dec(2) =~= seq![digit(2)]);
    assert(dec(3) =~= seq![digit(3)]);
    assert(dec(1) + "u"@ =~= "1u"@);
    assert(dec(2) + "u"@ =~= "2u"@);
    assert(dec(3) + "u"@ =~= "3u"@);
}

/// The product of 1 element of type Q4K, staged.
pub open spec fn staged_one_q4k(a: u32, ta: Term, id: u32, tb: Term) -> Term {
    Term::Brackets(Box::new(Term::Infix(Sign::Times, Box::new(Term::Call2(Fun::Load(DType::Q4K), Box::new(Term::Word(Word::Array(Arr::Device(a)))), Box::new(ta))), Box::new(Term::Element(Box::new(Term::Word(Word::Array(Arr::Group(id)))), Box::new(tb))))))
}

proof fn lemma_staged_one_q4k_literals()
    ensures
        same("(ksearch_load_q4k("@, "("@ + "ksearch_load_q4k"@ + "("@),
        same(") * tg"@, ")"@ + " * "@ + "tg"@),
        same("])"@, "]"@ + ")"@),
{
    reveal_strlit(" * ");
    reveal_strlit("(");
    reveal_strlit("(ksearch_load_q4k(");
    reveal_strlit(")");
    reveal_strlit(") * tg");
    reveal_strlit("]");
    reveal_strlit("])");
    reveal_strlit("ksearch_load_q4k");
    reveal_strlit("tg");
    assert("(ksearch_load_q4k("@ =~= "("@ + "ksearch_load_q4k"@ + "("@);
    assert(") * tg"@ =~= ")"@ + " * "@ + "tg"@);
    assert("])"@ =~= "]"@ + ")"@);
}

proof fn lemma_staged_one_q4k_text(k: Params, a: u32, ta: Term, id: u32, tb: Term)
    ensures
        staged_dot(
            1,
            DType::Q4K,
            array_name(k, Arr::Device(a)),
            written(k, ta),
            dec(id as nat),
            written(k, tb),
        ) matches Some(s) && same(s, written(k, staged_one_q4k(a, ta, id, tb))),
{
    lemma_cat();
    lemma_staged_one_q4k_literals();
    let t0 = Term::Word(Word::Array(Arr::Device(a)));
    let t1 = Term::Word(Word::Array(Arr::Group(id)));
    let t2 = Term::Call2(Fun::Load(DType::Q4K), Box::new(t0), Box::new(ta));
    let t3 = Term::Element(Box::new(t1), Box::new(tb));
    let t4 = Term::Infix(Sign::Times, Box::new(t2), Box::new(t3));
    let t5 = Term::Brackets(Box::new(t4));
    let na = array_name(k, Arr::Device(a));
    let nb = dec(id as nat);
    let (wa, wb) = (written(k, ta), written(k, tb));
    assert(same(written(k, t0), na));
    assert(same(written(k, t1), "tg"@ + nb));
    assert(same(written(k, t2), "ksearch_load_q4k"@ + "("@ + written(k, t0) + ", "@ + written(k, ta) + ")"@));
    assert(same(written(k, t3), written(k, t1) + "["@ + written(k, tb) + "]"@));
    assert(same(written(k, t4), written(k, t2) + " * "@ + written(k, t3)));
    assert(same(written(k, t5), "("@ + written(k, t4) + ")"@));
    let text = staged_dot(1, DType::Q4K, na, wa, nb, wb)->0;
    let flat = "("@ + "ksearch_load_q4k"@ + "("@ + na + ", "@ + wa + ")"@ + " * "@ + "tg"@ + nb + "["@ + wb + "]"@ + ")"@;
    assert(same(text, flat));
    assert(same(written(k, t5), flat));
}

proof fn lemma_staged_one_q4k<V>(sc: Scene<V>, a: u32, ta: Term, i: int, id: u32, tb: Term, j: int) -> (t: Term)
    requires
        (sc.k.kind)(a) == DType::Q4K,
        sc.is_index(ta, i),
        sc.is_index(tb, j),
    ensures
        t == staged_one_q4k(a, ta, id, tb),
        staged_dot(
            1,
            DType::Q4K,
            array_name(sc.k, Arr::Device(a)),
            written(sc.k, ta),
            dec(id as nat),
            written(sc.k, tb),
        ) matches Some(s) && same(s, written(sc.k, t)),
        grammatical(t),
        looseness(t) <= 0,
        sc.eval(t) == Val::<V>::Float(sc.ar.dot(|n: int| sc.logical(a, i + n), |n: int| shared_at(sc.l, sc.r, id, j + n), 1)),
{
    lemma_staged_one_q4k_text(sc.k, a, ta, id, tb);
    let t0 = Term::Word(Word::Array(Arr::Device(a)));
    let t1 = Term::Word(Word::Array(Arr::Group(id)));
    let t2 = Term::Call2(Fun::Load(DType::Q4K), Box::new(t0), Box::new(ta));
    let t3 = Term::Element(Box::new(t1), Box::new(tb));
    let t4 = Term::Infix(Sign::Times, Box::new(t2), Box::new(t3));
    let t5 = Term::Brackets(Box::new(t4));
    assert(grammatical(t0));
    assert(sc.eval(t0) == Val::<V>::Pointer(Arr::Device(a), 0));
    assert(grammatical(t1));
    assert(sc.eval(t1) == Val::<V>::Pointer(Arr::Group(id), 0));
    assert(grammatical(t2));
    assert(sc.eval(t2) == sc.call2(Fun::Load(DType::Q4K), sc.eval(t0), sc.eval(ta)));
    assert(grammatical(t3));
    assert(sc.eval(t3) == sc.element(Arr::Group(id), 0 + j));
    assert(grammatical(t4));
    assert(sc.eval(t4) == sc.infix(Sign::Times, sc.eval(t2), sc.eval(t3)));
    assert(grammatical(t5));
    assert(sc.eval(t5) == sc.eval(t4));
    let (p, q) = (|n: int| sc.logical(a, i + n), |n: int| shared_at(sc.l, sc.r, id, j + n));
    reveal_with_fuel(Arith::dot, 3);
    t5
}

/// The product of 1 element of type Q6K, staged.
pub open spec fn staged_one_q6k(a: u32, ta: Term, id: u32, tb: Term) -> Term {
    Term::Brackets(Box::new(Term::Infix(Sign::Times, Box::new(Term::Call2(Fun::Load(DType::Q6K), Box::new(Term::Word(Word::Array(Arr::Device(a)))), Box::new(ta))), Box::new(Term::Element(Box::new(Term::Word(Word::Array(Arr::Group(id)))), Box::new(tb))))))
}

proof fn lemma_staged_one_q6k_literals()
    ensures
        same("(ksearch_load_q6k("@, "("@ + "ksearch_load_q6k"@ + "("@),
        same(") * tg"@, ")"@ + " * "@ + "tg"@),
        same("])"@, "]"@ + ")"@),
{
    reveal_strlit(" * ");
    reveal_strlit("(");
    reveal_strlit("(ksearch_load_q6k(");
    reveal_strlit(")");
    reveal_strlit(") * tg");
    reveal_strlit("]");
    reveal_strlit("])");
    reveal_strlit("ksearch_load_q6k");
    reveal_strlit("tg");
    assert("(ksearch_load_q6k("@ =~= "("@ + "ksearch_load_q6k"@ + "("@);
    assert(") * tg"@ =~= ")"@ + " * "@ + "tg"@);
    assert("])"@ =~= "]"@ + ")"@);
}

proof fn lemma_staged_one_q6k_text(k: Params, a: u32, ta: Term, id: u32, tb: Term)
    ensures
        staged_dot(
            1,
            DType::Q6K,
            array_name(k, Arr::Device(a)),
            written(k, ta),
            dec(id as nat),
            written(k, tb),
        ) matches Some(s) && same(s, written(k, staged_one_q6k(a, ta, id, tb))),
{
    lemma_cat();
    lemma_staged_one_q6k_literals();
    let t0 = Term::Word(Word::Array(Arr::Device(a)));
    let t1 = Term::Word(Word::Array(Arr::Group(id)));
    let t2 = Term::Call2(Fun::Load(DType::Q6K), Box::new(t0), Box::new(ta));
    let t3 = Term::Element(Box::new(t1), Box::new(tb));
    let t4 = Term::Infix(Sign::Times, Box::new(t2), Box::new(t3));
    let t5 = Term::Brackets(Box::new(t4));
    let na = array_name(k, Arr::Device(a));
    let nb = dec(id as nat);
    let (wa, wb) = (written(k, ta), written(k, tb));
    assert(same(written(k, t0), na));
    assert(same(written(k, t1), "tg"@ + nb));
    assert(same(written(k, t2), "ksearch_load_q6k"@ + "("@ + written(k, t0) + ", "@ + written(k, ta) + ")"@));
    assert(same(written(k, t3), written(k, t1) + "["@ + written(k, tb) + "]"@));
    assert(same(written(k, t4), written(k, t2) + " * "@ + written(k, t3)));
    assert(same(written(k, t5), "("@ + written(k, t4) + ")"@));
    let text = staged_dot(1, DType::Q6K, na, wa, nb, wb)->0;
    let flat = "("@ + "ksearch_load_q6k"@ + "("@ + na + ", "@ + wa + ")"@ + " * "@ + "tg"@ + nb + "["@ + wb + "]"@ + ")"@;
    assert(same(text, flat));
    assert(same(written(k, t5), flat));
}

proof fn lemma_staged_one_q6k<V>(sc: Scene<V>, a: u32, ta: Term, i: int, id: u32, tb: Term, j: int) -> (t: Term)
    requires
        (sc.k.kind)(a) == DType::Q6K,
        sc.is_index(ta, i),
        sc.is_index(tb, j),
    ensures
        t == staged_one_q6k(a, ta, id, tb),
        staged_dot(
            1,
            DType::Q6K,
            array_name(sc.k, Arr::Device(a)),
            written(sc.k, ta),
            dec(id as nat),
            written(sc.k, tb),
        ) matches Some(s) && same(s, written(sc.k, t)),
        grammatical(t),
        looseness(t) <= 0,
        sc.eval(t) == Val::<V>::Float(sc.ar.dot(|n: int| sc.logical(a, i + n), |n: int| shared_at(sc.l, sc.r, id, j + n), 1)),
{
    lemma_staged_one_q6k_text(sc.k, a, ta, id, tb);
    let t0 = Term::Word(Word::Array(Arr::Device(a)));
    let t1 = Term::Word(Word::Array(Arr::Group(id)));
    let t2 = Term::Call2(Fun::Load(DType::Q6K), Box::new(t0), Box::new(ta));
    let t3 = Term::Element(Box::new(t1), Box::new(tb));
    let t4 = Term::Infix(Sign::Times, Box::new(t2), Box::new(t3));
    let t5 = Term::Brackets(Box::new(t4));
    assert(grammatical(t0));
    assert(sc.eval(t0) == Val::<V>::Pointer(Arr::Device(a), 0));
    assert(grammatical(t1));
    assert(sc.eval(t1) == Val::<V>::Pointer(Arr::Group(id), 0));
    assert(grammatical(t2));
    assert(sc.eval(t2) == sc.call2(Fun::Load(DType::Q6K), sc.eval(t0), sc.eval(ta)));
    assert(grammatical(t3));
    assert(sc.eval(t3) == sc.element(Arr::Group(id), 0 + j));
    assert(grammatical(t4));
    assert(sc.eval(t4) == sc.infix(Sign::Times, sc.eval(t2), sc.eval(t3)));
    assert(grammatical(t5));
    assert(sc.eval(t5) == sc.eval(t4));
    let (p, q) = (|n: int| sc.logical(a, i + n), |n: int| shared_at(sc.l, sc.r, id, j + n));
    reveal_with_fuel(Arith::dot, 3);
    t5
}

/// The product of 1 element of type Q40, staged.
pub open spec fn staged_one_q40(a: u32, ta: Term, id: u32, tb: Term) -> Term {
    Term::Brackets(Box::new(Term::Infix(Sign::Times, Box::new(Term::Call2(Fun::Load(DType::Q40), Box::new(Term::Word(Word::Array(Arr::Device(a)))), Box::new(ta))), Box::new(Term::Element(Box::new(Term::Word(Word::Array(Arr::Group(id)))), Box::new(tb))))))
}

proof fn lemma_staged_one_q40_literals()
    ensures
        same("(ksearch_load_q40("@, "("@ + "ksearch_load_q40"@ + "("@),
        same(") * tg"@, ")"@ + " * "@ + "tg"@),
        same("])"@, "]"@ + ")"@),
{
    reveal_strlit(" * ");
    reveal_strlit("(");
    reveal_strlit("(ksearch_load_q40(");
    reveal_strlit(")");
    reveal_strlit(") * tg");
    reveal_strlit("]");
    reveal_strlit("])");
    reveal_strlit("ksearch_load_q40");
    reveal_strlit("tg");
    assert("(ksearch_load_q40("@ =~= "("@ + "ksearch_load_q40"@ + "("@);
    assert(") * tg"@ =~= ")"@ + " * "@ + "tg"@);
    assert("])"@ =~= "]"@ + ")"@);
}

proof fn lemma_staged_one_q40_text(k: Params, a: u32, ta: Term, id: u32, tb: Term)
    ensures
        staged_dot(
            1,
            DType::Q40,
            array_name(k, Arr::Device(a)),
            written(k, ta),
            dec(id as nat),
            written(k, tb),
        ) matches Some(s) && same(s, written(k, staged_one_q40(a, ta, id, tb))),
{
    lemma_cat();
    lemma_staged_one_q40_literals();
    let t0 = Term::Word(Word::Array(Arr::Device(a)));
    let t1 = Term::Word(Word::Array(Arr::Group(id)));
    let t2 = Term::Call2(Fun::Load(DType::Q40), Box::new(t0), Box::new(ta));
    let t3 = Term::Element(Box::new(t1), Box::new(tb));
    let t4 = Term::Infix(Sign::Times, Box::new(t2), Box::new(t3));
    let t5 = Term::Brackets(Box::new(t4));
    let na = array_name(k, Arr::Device(a));
    let nb = dec(id as nat);
    let (wa, wb) = (written(k, ta), written(k, tb));
    assert(same(written(k, t0), na));
    assert(same(written(k, t1), "tg"@ + nb));
    assert(same(written(k, t2), "ksearch_load_q40"@ + "("@ + written(k, t0) + ", "@ + written(k, ta) + ")"@));
    assert(same(written(k, t3), written(k, t1) + "["@ + written(k, tb) + "]"@));
    assert(same(written(k, t4), written(k, t2) + " * "@ + written(k, t3)));
    assert(same(written(k, t5), "("@ + written(k, t4) + ")"@));
    let text = staged_dot(1, DType::Q40, na, wa, nb, wb)->0;
    let flat = "("@ + "ksearch_load_q40"@ + "("@ + na + ", "@ + wa + ")"@ + " * "@ + "tg"@ + nb + "["@ + wb + "]"@ + ")"@;
    assert(same(text, flat));
    assert(same(written(k, t5), flat));
}

proof fn lemma_staged_one_q40<V>(sc: Scene<V>, a: u32, ta: Term, i: int, id: u32, tb: Term, j: int) -> (t: Term)
    requires
        (sc.k.kind)(a) == DType::Q40,
        sc.is_index(ta, i),
        sc.is_index(tb, j),
    ensures
        t == staged_one_q40(a, ta, id, tb),
        staged_dot(
            1,
            DType::Q40,
            array_name(sc.k, Arr::Device(a)),
            written(sc.k, ta),
            dec(id as nat),
            written(sc.k, tb),
        ) matches Some(s) && same(s, written(sc.k, t)),
        grammatical(t),
        looseness(t) <= 0,
        sc.eval(t) == Val::<V>::Float(sc.ar.dot(|n: int| sc.logical(a, i + n), |n: int| shared_at(sc.l, sc.r, id, j + n), 1)),
{
    lemma_staged_one_q40_text(sc.k, a, ta, id, tb);
    let t0 = Term::Word(Word::Array(Arr::Device(a)));
    let t1 = Term::Word(Word::Array(Arr::Group(id)));
    let t2 = Term::Call2(Fun::Load(DType::Q40), Box::new(t0), Box::new(ta));
    let t3 = Term::Element(Box::new(t1), Box::new(tb));
    let t4 = Term::Infix(Sign::Times, Box::new(t2), Box::new(t3));
    let t5 = Term::Brackets(Box::new(t4));
    assert(grammatical(t0));
    assert(sc.eval(t0) == Val::<V>::Pointer(Arr::Device(a), 0));
    assert(grammatical(t1));
    assert(sc.eval(t1) == Val::<V>::Pointer(Arr::Group(id), 0));
    assert(grammatical(t2));
    assert(sc.eval(t2) == sc.call2(Fun::Load(DType::Q40), sc.eval(t0), sc.eval(ta)));
    assert(grammatical(t3));
    assert(sc.eval(t3) == sc.element(Arr::Group(id), 0 + j));
    assert(grammatical(t4));
    assert(sc.eval(t4) == sc.infix(Sign::Times, sc.eval(t2), sc.eval(t3)));
    assert(grammatical(t5));
    assert(sc.eval(t5) == sc.eval(t4));
    let (p, q) = (|n: int| sc.logical(a, i + n), |n: int| shared_at(sc.l, sc.r, id, j + n));
    reveal_with_fuel(Arith::dot, 3);
    t5
}

/// The product of 2 elements of type Q4K, staged.
pub open spec fn staged_two_q4k(a: u32, ta: Term, id: u32, tb: Term) -> Term {
    Term::Call2(Fun::Dot, Box::new(Term::Call2(Fun::LoadTwo, Box::new(Term::Word(Word::Array(Arr::Device(a)))), Box::new(Term::Brackets(Box::new(ta))))), Box::new(Term::Vector { group: true, half: false, width: 2, at: Box::new(Term::Brackets(Box::new(Term::Infix(Sign::Plus, Box::new(Term::Word(Word::Array(Arr::Group(id)))), Box::new(Term::Brackets(Box::new(tb))))))) }))
}

proof fn lemma_staged_two_q4k_literals()
    ensures
        same("dot(ksearch_load_q4k2("@, "dot"@ + "("@ + "ksearch_load_q4k2"@ + "("@),
        same(", ("@, ", "@ + "("@),
        same(")), *(threadgroup const float2*)(tg"@, ")"@ + ")"@ + ", "@ + "*(threadgroup const float2*)"@ + "("@ + "tg"@),
        same(" + ("@, " + "@ + "("@),
        same(")))"@, ")"@ + ")"@ + ")"@),
{
    reveal_strlit(" + ");
    reveal_strlit(" + (");
    reveal_strlit("(");
    reveal_strlit(")");
    reveal_strlit(")))");
    reveal_strlit(")), *(threadgroup const float2*)(tg");
    reveal_strlit("*(threadgroup const float2*)");
    reveal_strlit(", ");
    reveal_strlit(", (");
    reveal_strlit("dot");
    reveal_strlit("dot(ksearch_load_q4k2(");
    reveal_strlit("ksearch_load_q4k2");
    reveal_strlit("tg");
    assert("dot(ksearch_load_q4k2("@ =~= "dot"@ + "("@ + "ksearch_load_q4k2"@ + "("@);
    assert(", ("@ =~= ", "@ + "("@);
    assert(")), *(threadgroup const float2*)(tg"@ =~= ")"@ + ")"@ + ", "@ + "*(threadgroup const float2*)"@ + "("@ + "tg"@);
    assert(" + ("@ =~= " + "@ + "("@);
    assert(")))"@ =~= ")"@ + ")"@ + ")"@);
}

proof fn lemma_staged_two_q4k_text(k: Params, a: u32, ta: Term, id: u32, tb: Term)
    ensures
        staged_dot(
            2,
            DType::Q4K,
            array_name(k, Arr::Device(a)),
            written(k, ta),
            dec(id as nat),
            written(k, tb),
        ) matches Some(s) && same(s, written(k, staged_two_q4k(a, ta, id, tb))),
{
    lemma_staged_two_q4k_literals();
    let t0 = Term::Word(Word::Array(Arr::Device(a)));
    let t1 = Term::Word(Word::Array(Arr::Group(id)));
    let t2 = Term::Brackets(Box::new(ta));
    let t3 = Term::Call2(Fun::LoadTwo, Box::new(t0), Box::new(t2));
    let t4 = Term::Brackets(Box::new(tb));
    let t5 = Term::Infix(Sign::Plus, Box::new(t1), Box::new(t4));
    let t6 = Term::Brackets(Box::new(t5));
    let t7 = Term::Vector { group: true, half: false, width: 2, at: Box::new(t6) };
    let t8 = Term::Call2(Fun::Dot, Box::new(t3), Box::new(t7));
    let na = array_name(k, Arr::Device(a));
    let nb = dec(id as nat);
    let (wa, wb) = (written(k, ta), written(k, tb));
    assert(same(written(k, t0), na));
    assert(same(written(k, t1), "tg"@ + nb));
    assert(same(written(k, t2), "("@ + written(k, ta) + ")"@));
    assert(same(written(k, t3), "ksearch_load_q4k2"@ + "("@ + written(k, t0) + ", "@ + written(k, t2) + ")"@));
    assert(same(written(k, t4), "("@ + written(k, tb) + ")"@));
    assert(same(written(k, t5), written(k, t1) + " + "@ + written(k, t4)));
    assert(same(written(k, t6), "("@ + written(k, t5) + ")"@));
    assert(same(written(k, t7), "*(threadgroup const float2*)"@ + written(k, t6)));
    assert(same(written(k, t8), "dot"@ + "("@ + written(k, t3) + ", "@ + written(k, t7) + ")"@));
    let text = staged_dot(2, DType::Q4K, na, wa, nb, wb)->0;
    let o0 = "dot"@ + "("@ + "ksearch_load_q4k2"@ + "("@;
    let o1 = o0 + na;
    lemma_add2(o1, ", "@, "("@);
    let o2 = o1 + ", "@ + "("@;
    let o3 = o2 + wa;
    lemma_add6(o3, ")"@, ")"@, ", "@, "*(threadgroup const float2*)"@, "("@, "tg"@);
    let o4 = o3 + ")"@ + ")"@ + ", "@ + "*(threadgroup const float2*)"@ + "("@ + "tg"@;
    let o5 = o4 + nb;
    lemma_add2(o5, " + "@, "("@);
    let o6 = o5 + " + "@ + "("@;
    let o7 = o6 + wb;
    lemma_add3(o7, ")"@, ")"@, ")"@);
    let o8 = o7 + ")"@ + ")"@ + ")"@;
    assert(same(text, o8));
    let p0 = "dot"@;
    let p1 = p0 + "("@;
    lemma_add6(p1, "ksearch_load_q4k2"@, "("@, written(k, t0), ", "@, written(k, t2), ")"@);
    let p2 = p1 + "ksearch_load_q4k2"@;
    let p3 = p2 + "("@;
    let p4 = p3 + na;
    let p5 = p4 + ", "@;
    lemma_add3(p5, "("@, written(k, ta), ")"@);
    let p6 = p5 + "("@;
    let p7 = p6 + wa;
    let p8 = p7 + ")"@;
    assert(same(p5 + written(k, t2), p8));
    let p9 = p8 + ")"@;
    assert(same(p1 + written(k, t3), p9));
    let p10 = p9 + ", "@;
    lemma_add2(p10, "*(threadgroup const float2*)"@, written(k, t6));
    let p11 = p10 + "*(threadgroup const float2*)"@;
    lemma_add3(p11, "("@, written(k, t5), ")"@);
    let p12 = p11 + "("@;
    lemma_add3(p12, written(k, t1), " + "@, written(k, t4));
    lemma_add2(p12, "tg"@, nb);
    let p13 = p12 + "tg"@;
    let p14 = p13 + nb;
    assert(same(p12 + written(k, t1), p14));
    let p15 = p14 + " + "@;
    lemma_add3(p15, "("@, written(k, tb), ")"@);
    let p16 = p15 + "("@;
    let p17 = p16 + wb;
    let p18 = p17 + ")"@;
    assert(same(p15 + written(k, t4), p18));
    assert(same(p12 + written(k, t5), p18));
    let p19 = p18 + ")"@;
    assert(same(p11 + written(k, t6), p19));
    assert(same(p10 + written(k, t7), p19));
    let p20 = p19 + ")"@;
    assert(same(written(k, t8), p20));
    assert(same(o8, p20));
}

proof fn lemma_staged_two_q4k<V>(sc: Scene<V>, a: u32, ta: Term, i: int, id: u32, tb: Term, j: int) -> (t: Term)
    requires
        (sc.k.kind)(a) == DType::Q4K,
        sc.is_index(ta, i),
        sc.is_index(tb, j),
    ensures
        t == staged_two_q4k(a, ta, id, tb),
        staged_dot(
            2,
            DType::Q4K,
            array_name(sc.k, Arr::Device(a)),
            written(sc.k, ta),
            dec(id as nat),
            written(sc.k, tb),
        ) matches Some(s) && same(s, written(sc.k, t)),
        grammatical(t),
        looseness(t) <= 0,
        sc.eval(t) == Val::<V>::Float(sc.ar.dot(|n: int| sc.logical(a, i + n), |n: int| shared_at(sc.l, sc.r, id, j + n), 2)),
{
    lemma_staged_two_q4k_text(sc.k, a, ta, id, tb);
    let t0 = Term::Word(Word::Array(Arr::Device(a)));
    let t1 = Term::Word(Word::Array(Arr::Group(id)));
    let t2 = Term::Brackets(Box::new(ta));
    let t3 = Term::Call2(Fun::LoadTwo, Box::new(t0), Box::new(t2));
    let t4 = Term::Brackets(Box::new(tb));
    let t5 = Term::Infix(Sign::Plus, Box::new(t1), Box::new(t4));
    let t6 = Term::Brackets(Box::new(t5));
    let t7 = Term::Vector { group: true, half: false, width: 2, at: Box::new(t6) };
    let t8 = Term::Call2(Fun::Dot, Box::new(t3), Box::new(t7));
    assert(grammatical(t0));
    assert(sc.eval(t0) == Val::<V>::Pointer(Arr::Device(a), 0));
    assert(grammatical(t1));
    assert(sc.eval(t1) == Val::<V>::Pointer(Arr::Group(id), 0));
    assert(grammatical(t2));
    assert(sc.eval(t2) == sc.eval(ta));
    assert(grammatical(t3));
    assert(sc.eval(t3) == sc.call2(Fun::LoadTwo, sc.eval(t0), sc.eval(t2)));
    assert(grammatical(t4));
    assert(sc.eval(t4) == sc.eval(tb));
    assert(grammatical(t5));
    assert(sc.eval(t5) == sc.infix(Sign::Plus, sc.eval(t1), sc.eval(t4)));
    assert(grammatical(t6));
    assert(sc.eval(t6) == sc.eval(t5));
    assert(grammatical(t7));
    assert(!(sc.eval(t7) is Nonsense));
    assert(grammatical(t8));
    assert(sc.eval(t8) == sc.call2(Fun::Dot, sc.eval(t3), sc.eval(t7)));
    let (p, q) = (|n: int| sc.logical(a, i + n), |n: int| shared_at(sc.l, sc.r, id, j + n));
    reveal_with_fuel(Arith::dot, 3);
    assert(sc.eval(t3) is Floats && sc.eval(t7) is Floats);
    let (x, y) = (sc.eval(t3)->Floats_0, sc.eval(t7)->Floats_0);
    assert(x.len() == 2 && y.len() == 2);
    assert(x[0] == p(0) && y[0] == q(0));
    assert(x[1] == p(1) && y[1] == q(1));
    lemma_dot_same(sc.ar, |n: int| x[n], p, |n: int| y[n], q, 2);
    t8
}

/// The product of 4 elements of type Q4K, staged.
pub open spec fn staged_four_q4k(a: u32, ta: Term, id: u32, tb: Term) -> Term {
    Term::Call2(Fun::Dot, Box::new(Term::Call2(Fun::LoadFour(DType::Q4K), Box::new(Term::Word(Word::Array(Arr::Device(a)))), Box::new(Term::Brackets(Box::new(ta))))), Box::new(Term::Vector { group: true, half: false, width: 4, at: Box::new(Term::Brackets(Box::new(Term::Infix(Sign::Plus, Box::new(Term::Word(Word::Array(Arr::Group(id)))), Box::new(Term::Brackets(Box::new(tb))))))) }))
}

proof fn lemma_staged_four_q4k_literals()
    ensures
        same("dot(ksearch_load_q4k4("@, "dot"@ + "("@ + "ksearch_load_q4k4"@ + "("@),
        same(", ("@, ", "@ + "("@),
        same(")), *(threadgroup const float4*)(tg"@, ")"@ + ")"@ + ", "@ + "*(threadgroup const float4*)"@ + "("@ + "tg"@),
        same(" + ("@, " + "@ + "("@),
        same(")))"@, ")"@ + ")"@ + ")"@),
{
    reveal_strlit(" + ");
    reveal_strlit(" + (");
    reveal_strlit("(");
    reveal_strlit(")");
    reveal_strlit(")))");
    reveal_strlit(")), *(threadgroup const float4*)(tg");
    reveal_strlit("*(threadgroup const float4*)");
    reveal_strlit(", ");
    reveal_strlit(", (");
    reveal_strlit("dot");
    reveal_strlit("dot(ksearch_load_q4k4(");
    reveal_strlit("ksearch_load_q4k4");
    reveal_strlit("tg");
    assert("dot(ksearch_load_q4k4("@ =~= "dot"@ + "("@ + "ksearch_load_q4k4"@ + "("@);
    assert(", ("@ =~= ", "@ + "("@);
    assert(")), *(threadgroup const float4*)(tg"@ =~= ")"@ + ")"@ + ", "@ + "*(threadgroup const float4*)"@ + "("@ + "tg"@);
    assert(" + ("@ =~= " + "@ + "("@);
    assert(")))"@ =~= ")"@ + ")"@ + ")"@);
}

proof fn lemma_staged_four_q4k_text(k: Params, a: u32, ta: Term, id: u32, tb: Term)
    ensures
        staged_dot(
            4,
            DType::Q4K,
            array_name(k, Arr::Device(a)),
            written(k, ta),
            dec(id as nat),
            written(k, tb),
        ) matches Some(s) && same(s, written(k, staged_four_q4k(a, ta, id, tb))),
{
    lemma_staged_four_q4k_literals();
    let t0 = Term::Word(Word::Array(Arr::Device(a)));
    let t1 = Term::Word(Word::Array(Arr::Group(id)));
    let t2 = Term::Brackets(Box::new(ta));
    let t3 = Term::Call2(Fun::LoadFour(DType::Q4K), Box::new(t0), Box::new(t2));
    let t4 = Term::Brackets(Box::new(tb));
    let t5 = Term::Infix(Sign::Plus, Box::new(t1), Box::new(t4));
    let t6 = Term::Brackets(Box::new(t5));
    let t7 = Term::Vector { group: true, half: false, width: 4, at: Box::new(t6) };
    let t8 = Term::Call2(Fun::Dot, Box::new(t3), Box::new(t7));
    let na = array_name(k, Arr::Device(a));
    let nb = dec(id as nat);
    let (wa, wb) = (written(k, ta), written(k, tb));
    assert(same(written(k, t0), na));
    assert(same(written(k, t1), "tg"@ + nb));
    assert(same(written(k, t2), "("@ + written(k, ta) + ")"@));
    assert(same(written(k, t3), "ksearch_load_q4k4"@ + "("@ + written(k, t0) + ", "@ + written(k, t2) + ")"@));
    assert(same(written(k, t4), "("@ + written(k, tb) + ")"@));
    assert(same(written(k, t5), written(k, t1) + " + "@ + written(k, t4)));
    assert(same(written(k, t6), "("@ + written(k, t5) + ")"@));
    assert(same(written(k, t7), "*(threadgroup const float4*)"@ + written(k, t6)));
    assert(same(written(k, t8), "dot"@ + "("@ + written(k, t3) + ", "@ + written(k, t7) + ")"@));
    let text = staged_dot(4, DType::Q4K, na, wa, nb, wb)->0;
    let o0 = "dot"@ + "("@ + "ksearch_load_q4k4"@ + "("@;
    let o1 = o0 + na;
    lemma_add2(o1, ", "@, "("@);
    let o2 = o1 + ", "@ + "("@;
    let o3 = o2 + wa;
    lemma_add6(o3, ")"@, ")"@, ", "@, "*(threadgroup const float4*)"@, "("@, "tg"@);
    let o4 = o3 + ")"@ + ")"@ + ", "@ + "*(threadgroup const float4*)"@ + "("@ + "tg"@;
    let o5 = o4 + nb;
    lemma_add2(o5, " + "@, "("@);
    let o6 = o5 + " + "@ + "("@;
    let o7 = o6 + wb;
    lemma_add3(o7, ")"@, ")"@, ")"@);
    let o8 = o7 + ")"@ + ")"@ + ")"@;
    assert(same(text, o8));
    let p0 = "dot"@;
    let p1 = p0 + "("@;
    lemma_add6(p1, "ksearch_load_q4k4"@, "("@, written(k, t0), ", "@, written(k, t2), ")"@);
    let p2 = p1 + "ksearch_load_q4k4"@;
    let p3 = p2 + "("@;
    let p4 = p3 + na;
    let p5 = p4 + ", "@;
    lemma_add3(p5, "("@, written(k, ta), ")"@);
    let p6 = p5 + "("@;
    let p7 = p6 + wa;
    let p8 = p7 + ")"@;
    assert(same(p5 + written(k, t2), p8));
    let p9 = p8 + ")"@;
    assert(same(p1 + written(k, t3), p9));
    let p10 = p9 + ", "@;
    lemma_add2(p10, "*(threadgroup const float4*)"@, written(k, t6));
    let p11 = p10 + "*(threadgroup const float4*)"@;
    lemma_add3(p11, "("@, written(k, t5), ")"@);
    let p12 = p11 + "("@;
    lemma_add3(p12, written(k, t1), " + "@, written(k, t4));
    lemma_add2(p12, "tg"@, nb);
    let p13 = p12 + "tg"@;
    let p14 = p13 + nb;
    assert(same(p12 + written(k, t1), p14));
    let p15 = p14 + " + "@;
    lemma_add3(p15, "("@, written(k, tb), ")"@);
    let p16 = p15 + "("@;
    let p17 = p16 + wb;
    let p18 = p17 + ")"@;
    assert(same(p15 + written(k, t4), p18));
    assert(same(p12 + written(k, t5), p18));
    let p19 = p18 + ")"@;
    assert(same(p11 + written(k, t6), p19));
    assert(same(p10 + written(k, t7), p19));
    let p20 = p19 + ")"@;
    assert(same(written(k, t8), p20));
    assert(same(o8, p20));
}

proof fn lemma_staged_four_q4k<V>(sc: Scene<V>, a: u32, ta: Term, i: int, id: u32, tb: Term, j: int) -> (t: Term)
    requires
        (sc.k.kind)(a) == DType::Q4K,
        sc.is_index(ta, i),
        sc.is_index(tb, j),
    ensures
        t == staged_four_q4k(a, ta, id, tb),
        staged_dot(
            4,
            DType::Q4K,
            array_name(sc.k, Arr::Device(a)),
            written(sc.k, ta),
            dec(id as nat),
            written(sc.k, tb),
        ) matches Some(s) && same(s, written(sc.k, t)),
        grammatical(t),
        looseness(t) <= 0,
        sc.eval(t) == Val::<V>::Float(sc.ar.dot(|n: int| sc.logical(a, i + n), |n: int| shared_at(sc.l, sc.r, id, j + n), 4)),
{
    lemma_staged_four_q4k_text(sc.k, a, ta, id, tb);
    let t0 = Term::Word(Word::Array(Arr::Device(a)));
    let t1 = Term::Word(Word::Array(Arr::Group(id)));
    let t2 = Term::Brackets(Box::new(ta));
    let t3 = Term::Call2(Fun::LoadFour(DType::Q4K), Box::new(t0), Box::new(t2));
    let t4 = Term::Brackets(Box::new(tb));
    let t5 = Term::Infix(Sign::Plus, Box::new(t1), Box::new(t4));
    let t6 = Term::Brackets(Box::new(t5));
    let t7 = Term::Vector { group: true, half: false, width: 4, at: Box::new(t6) };
    let t8 = Term::Call2(Fun::Dot, Box::new(t3), Box::new(t7));
    assert(grammatical(t0));
    assert(sc.eval(t0) == Val::<V>::Pointer(Arr::Device(a), 0));
    assert(grammatical(t1));
    assert(sc.eval(t1) == Val::<V>::Pointer(Arr::Group(id), 0));
    assert(grammatical(t2));
    assert(sc.eval(t2) == sc.eval(ta));
    assert(grammatical(t3));
    assert(sc.eval(t3) == sc.call2(Fun::LoadFour(DType::Q4K), sc.eval(t0), sc.eval(t2)));
    assert(grammatical(t4));
    assert(sc.eval(t4) == sc.eval(tb));
    assert(grammatical(t5));
    assert(sc.eval(t5) == sc.infix(Sign::Plus, sc.eval(t1), sc.eval(t4)));
    assert(grammatical(t6));
    assert(sc.eval(t6) == sc.eval(t5));
    assert(grammatical(t7));
    assert(!(sc.eval(t7) is Nonsense));
    assert(grammatical(t8));
    assert(sc.eval(t8) == sc.call2(Fun::Dot, sc.eval(t3), sc.eval(t7)));
    let (p, q) = (|n: int| sc.logical(a, i + n), |n: int| shared_at(sc.l, sc.r, id, j + n));
    reveal_with_fuel(Arith::dot, 3);
    assert(sc.eval(t3) is Floats && sc.eval(t7) is Floats);
    let (x, y) = (sc.eval(t3)->Floats_0, sc.eval(t7)->Floats_0);
    assert(x.len() == 4 && y.len() == 4);
    assert(x[0] == p(0) && y[0] == q(0));
    assert(x[1] == p(1) && y[1] == q(1));
    assert(x[2] == p(2) && y[2] == q(2));
    assert(x[3] == p(3) && y[3] == q(3));
    lemma_dot_same(sc.ar, |n: int| x[n], p, |n: int| y[n], q, 4);
    t8
}

/// The product of 4 elements of type Q40, staged.
pub open spec fn staged_four_q40(a: u32, ta: Term, id: u32, tb: Term) -> Term {
    Term::Call2(Fun::Dot, Box::new(Term::Call2(Fun::LoadFour(DType::Q40), Box::new(Term::Word(Word::Array(Arr::Device(a)))), Box::new(Term::Brackets(Box::new(ta))))), Box::new(Term::Vector { group: true, half: false, width: 4, at: Box::new(Term::Brackets(Box::new(Term::Infix(Sign::Plus, Box::new(Term::Word(Word::Array(Arr::Group(id)))), Box::new(Term::Brackets(Box::new(tb))))))) }))
}

proof fn lemma_staged_four_q40_literals()
    ensures
        same("dot(ksearch_load_q404("@, "dot"@ + "("@ + "ksearch_load_q404"@ + "("@),
        same(", ("@, ", "@ + "("@),
        same(")), *(threadgroup const float4*)(tg"@, ")"@ + ")"@ + ", "@ + "*(threadgroup const float4*)"@ + "("@ + "tg"@),
        same(" + ("@, " + "@ + "("@),
        same(")))"@, ")"@ + ")"@ + ")"@),
{
    reveal_strlit(" + ");
    reveal_strlit(" + (");
    reveal_strlit("(");
    reveal_strlit(")");
    reveal_strlit(")))");
    reveal_strlit(")), *(threadgroup const float4*)(tg");
    reveal_strlit("*(threadgroup const float4*)");
    reveal_strlit(", ");
    reveal_strlit(", (");
    reveal_strlit("dot");
    reveal_strlit("dot(ksearch_load_q404(");
    reveal_strlit("ksearch_load_q404");
    reveal_strlit("tg");
    assert("dot(ksearch_load_q404("@ =~= "dot"@ + "("@ + "ksearch_load_q404"@ + "("@);
    assert(", ("@ =~= ", "@ + "("@);
    assert(")), *(threadgroup const float4*)(tg"@ =~= ")"@ + ")"@ + ", "@ + "*(threadgroup const float4*)"@ + "("@ + "tg"@);
    assert(" + ("@ =~= " + "@ + "("@);
    assert(")))"@ =~= ")"@ + ")"@ + ")"@);
}

proof fn lemma_staged_four_q40_text(k: Params, a: u32, ta: Term, id: u32, tb: Term)
    ensures
        staged_dot(
            4,
            DType::Q40,
            array_name(k, Arr::Device(a)),
            written(k, ta),
            dec(id as nat),
            written(k, tb),
        ) matches Some(s) && same(s, written(k, staged_four_q40(a, ta, id, tb))),
{
    lemma_staged_four_q40_literals();
    let t0 = Term::Word(Word::Array(Arr::Device(a)));
    let t1 = Term::Word(Word::Array(Arr::Group(id)));
    let t2 = Term::Brackets(Box::new(ta));
    let t3 = Term::Call2(Fun::LoadFour(DType::Q40), Box::new(t0), Box::new(t2));
    let t4 = Term::Brackets(Box::new(tb));
    let t5 = Term::Infix(Sign::Plus, Box::new(t1), Box::new(t4));
    let t6 = Term::Brackets(Box::new(t5));
    let t7 = Term::Vector { group: true, half: false, width: 4, at: Box::new(t6) };
    let t8 = Term::Call2(Fun::Dot, Box::new(t3), Box::new(t7));
    let na = array_name(k, Arr::Device(a));
    let nb = dec(id as nat);
    let (wa, wb) = (written(k, ta), written(k, tb));
    assert(same(written(k, t0), na));
    assert(same(written(k, t1), "tg"@ + nb));
    assert(same(written(k, t2), "("@ + written(k, ta) + ")"@));
    assert(same(written(k, t3), "ksearch_load_q404"@ + "("@ + written(k, t0) + ", "@ + written(k, t2) + ")"@));
    assert(same(written(k, t4), "("@ + written(k, tb) + ")"@));
    assert(same(written(k, t5), written(k, t1) + " + "@ + written(k, t4)));
    assert(same(written(k, t6), "("@ + written(k, t5) + ")"@));
    assert(same(written(k, t7), "*(threadgroup const float4*)"@ + written(k, t6)));
    assert(same(written(k, t8), "dot"@ + "("@ + written(k, t3) + ", "@ + written(k, t7) + ")"@));
    let text = staged_dot(4, DType::Q40, na, wa, nb, wb)->0;
    let o0 = "dot"@ + "("@ + "ksearch_load_q404"@ + "("@;
    let o1 = o0 + na;
    lemma_add2(o1, ", "@, "("@);
    let o2 = o1 + ", "@ + "("@;
    let o3 = o2 + wa;
    lemma_add6(o3, ")"@, ")"@, ", "@, "*(threadgroup const float4*)"@, "("@, "tg"@);
    let o4 = o3 + ")"@ + ")"@ + ", "@ + "*(threadgroup const float4*)"@ + "("@ + "tg"@;
    let o5 = o4 + nb;
    lemma_add2(o5, " + "@, "("@);
    let o6 = o5 + " + "@ + "("@;
    let o7 = o6 + wb;
    lemma_add3(o7, ")"@, ")"@, ")"@);
    let o8 = o7 + ")"@ + ")"@ + ")"@;
    assert(same(text, o8));
    let p0 = "dot"@;
    let p1 = p0 + "("@;
    lemma_add6(p1, "ksearch_load_q404"@, "("@, written(k, t0), ", "@, written(k, t2), ")"@);
    let p2 = p1 + "ksearch_load_q404"@;
    let p3 = p2 + "("@;
    let p4 = p3 + na;
    let p5 = p4 + ", "@;
    lemma_add3(p5, "("@, written(k, ta), ")"@);
    let p6 = p5 + "("@;
    let p7 = p6 + wa;
    let p8 = p7 + ")"@;
    assert(same(p5 + written(k, t2), p8));
    let p9 = p8 + ")"@;
    assert(same(p1 + written(k, t3), p9));
    let p10 = p9 + ", "@;
    lemma_add2(p10, "*(threadgroup const float4*)"@, written(k, t6));
    let p11 = p10 + "*(threadgroup const float4*)"@;
    lemma_add3(p11, "("@, written(k, t5), ")"@);
    let p12 = p11 + "("@;
    lemma_add3(p12, written(k, t1), " + "@, written(k, t4));
    lemma_add2(p12, "tg"@, nb);
    let p13 = p12 + "tg"@;
    let p14 = p13 + nb;
    assert(same(p12 + written(k, t1), p14));
    let p15 = p14 + " + "@;
    lemma_add3(p15, "("@, written(k, tb), ")"@);
    let p16 = p15 + "("@;
    let p17 = p16 + wb;
    let p18 = p17 + ")"@;
    assert(same(p15 + written(k, t4), p18));
    assert(same(p12 + written(k, t5), p18));
    let p19 = p18 + ")"@;
    assert(same(p11 + written(k, t6), p19));
    assert(same(p10 + written(k, t7), p19));
    let p20 = p19 + ")"@;
    assert(same(written(k, t8), p20));
    assert(same(o8, p20));
}

proof fn lemma_staged_four_q40<V>(sc: Scene<V>, a: u32, ta: Term, i: int, id: u32, tb: Term, j: int) -> (t: Term)
    requires
        (sc.k.kind)(a) == DType::Q40,
        sc.is_index(ta, i),
        sc.is_index(tb, j),
    ensures
        t == staged_four_q40(a, ta, id, tb),
        staged_dot(
            4,
            DType::Q40,
            array_name(sc.k, Arr::Device(a)),
            written(sc.k, ta),
            dec(id as nat),
            written(sc.k, tb),
        ) matches Some(s) && same(s, written(sc.k, t)),
        grammatical(t),
        looseness(t) <= 0,
        sc.eval(t) == Val::<V>::Float(sc.ar.dot(|n: int| sc.logical(a, i + n), |n: int| shared_at(sc.l, sc.r, id, j + n), 4)),
{
    lemma_staged_four_q40_text(sc.k, a, ta, id, tb);
    let t0 = Term::Word(Word::Array(Arr::Device(a)));
    let t1 = Term::Word(Word::Array(Arr::Group(id)));
    let t2 = Term::Brackets(Box::new(ta));
    let t3 = Term::Call2(Fun::LoadFour(DType::Q40), Box::new(t0), Box::new(t2));
    let t4 = Term::Brackets(Box::new(tb));
    let t5 = Term::Infix(Sign::Plus, Box::new(t1), Box::new(t4));
    let t6 = Term::Brackets(Box::new(t5));
    let t7 = Term::Vector { group: true, half: false, width: 4, at: Box::new(t6) };
    let t8 = Term::Call2(Fun::Dot, Box::new(t3), Box::new(t7));
    assert(grammatical(t0));
    assert(sc.eval(t0) == Val::<V>::Pointer(Arr::Device(a), 0));
    assert(grammatical(t1));
    assert(sc.eval(t1) == Val::<V>::Pointer(Arr::Group(id), 0));
    assert(grammatical(t2));
    assert(sc.eval(t2) == sc.eval(ta));
    assert(grammatical(t3));
    assert(sc.eval(t3) == sc.call2(Fun::LoadFour(DType::Q40), sc.eval(t0), sc.eval(t2)));
    assert(grammatical(t4));
    assert(sc.eval(t4) == sc.eval(tb));
    assert(grammatical(t5));
    assert(sc.eval(t5) == sc.infix(Sign::Plus, sc.eval(t1), sc.eval(t4)));
    assert(grammatical(t6));
    assert(sc.eval(t6) == sc.eval(t5));
    assert(grammatical(t7));
    assert(!(sc.eval(t7) is Nonsense));
    assert(grammatical(t8));
    assert(sc.eval(t8) == sc.call2(Fun::Dot, sc.eval(t3), sc.eval(t7)));
    let (p, q) = (|n: int| sc.logical(a, i + n), |n: int| shared_at(sc.l, sc.r, id, j + n));
    reveal_with_fuel(Arith::dot, 3);
    assert(sc.eval(t3) is Floats && sc.eval(t7) is Floats);
    let (x, y) = (sc.eval(t3)->Floats_0, sc.eval(t7)->Floats_0);
    assert(x.len() == 4 && y.len() == 4);
    assert(x[0] == p(0) && y[0] == q(0));
    assert(x[1] == p(1) && y[1] == q(1));
    assert(x[2] == p(2) && y[2] == q(2));
    assert(x[3] == p(3) && y[3] == q(3));
    lemma_dot_same(sc.ar, |n: int| x[n], p, |n: int| y[n], q, 4);
    t8
}

/// The product of 32 elements of type Q4K, staged.
pub open spec fn staged_32(a: u32, ta: Term, id: u32, tb: Term) -> Term {
    Term::Call4(Fun::Dot32(true), Box::new(Term::Word(Word::Array(Arr::Device(a)))), Box::new(Term::Brackets(Box::new(ta))), Box::new(Term::Word(Word::Array(Arr::Group(id)))), Box::new(Term::Brackets(Box::new(tb))))
}

proof fn lemma_staged_32_literals()
    ensures
        same("ksearch_dot_q4k32("@, "ksearch_dot_q4k32"@ + "("@),
        same(", ("@, ", "@ + "("@),
        same("), tg"@, ")"@ + ", "@ + "tg"@),
        same(", ("@, ", "@ + "("@),
        same("))"@, ")"@ + ")"@),
{
    reveal_strlit("(");
    reveal_strlit(")");
    reveal_strlit("))");
    reveal_strlit("), tg");
    reveal_strlit(", ");
    reveal_strlit(", (");
    reveal_strlit("ksearch_dot_q4k32");
    reveal_strlit("ksearch_dot_q4k32(");
    reveal_strlit("tg");
    assert("ksearch_dot_q4k32("@ =~= "ksearch_dot_q4k32"@ + "("@);
    assert(", ("@ =~= ", "@ + "("@);
    assert("), tg"@ =~= ")"@ + ", "@ + "tg"@);
    assert(", ("@ =~= ", "@ + "("@);
    assert("))"@ =~= ")"@ + ")"@);
}

proof fn lemma_staged_32_text(k: Params, a: u32, ta: Term, id: u32, tb: Term)
    ensures
        staged_dot(
            32,
            DType::Q4K,
            array_name(k, Arr::Device(a)),
            written(k, ta),
            dec(id as nat),
            written(k, tb),
        ) matches Some(s) && same(s, written(k, staged_32(a, ta, id, tb))),
{
    lemma_cat();
    lemma_staged_32_literals();
    let t0 = Term::Word(Word::Array(Arr::Device(a)));
    let t1 = Term::Word(Word::Array(Arr::Group(id)));
    let t2 = Term::Brackets(Box::new(ta));
    let t3 = Term::Brackets(Box::new(tb));
    let t4 = Term::Call4(Fun::Dot32(true), Box::new(t0), Box::new(t2), Box::new(t1), Box::new(t3));
    let na = array_name(k, Arr::Device(a));
    let nb = dec(id as nat);
    let (wa, wb) = (written(k, ta), written(k, tb));
    assert(same(written(k, t0), na));
    assert(same(written(k, t1), "tg"@ + nb));
    assert(same(written(k, t2), "("@ + written(k, ta) + ")"@));
    assert(same(written(k, t3), "("@ + written(k, tb) + ")"@));
    assert(same(written(k, t4), "ksearch_dot_q4k32"@ + "("@ + written(k, t0) + ", "@ + written(k, t2) + ", "@ + written(k, t1) + ", "@ + written(k, t3) + ")"@));
    let text = staged_dot(32, DType::Q4K, na, wa, nb, wb)->0;
    let flat = "ksearch_dot_q4k32"@ + "("@ + na + ", "@ + "("@ + wa + ")"@ + ", "@ + "tg"@ + nb + ", "@ + "("@ + wb + ")"@ + ")"@;
    assert(same(text, flat));
    assert(same(written(k, t4), flat));
}

proof fn lemma_staged_32<V>(sc: Scene<V>, a: u32, ta: Term, i: int, id: u32, tb: Term, j: int) -> (t: Term)
    requires
        (sc.k.kind)(a) == DType::Q4K,
        sc.is_index(ta, i),
        sc.is_index(tb, j),
    ensures
        t == staged_32(a, ta, id, tb),
        staged_dot(
            32,
            DType::Q4K,
            array_name(sc.k, Arr::Device(a)),
            written(sc.k, ta),
            dec(id as nat),
            written(sc.k, tb),
        ) matches Some(s) && same(s, written(sc.k, t)),
        grammatical(t),
        looseness(t) <= 0,
        sc.eval(t) == Val::<V>::Float(sc.ar.dot(|n: int| sc.logical(a, i + n), |n: int| shared_at(sc.l, sc.r, id, j + n), 32)),
{
    lemma_staged_32_text(sc.k, a, ta, id, tb);
    let t0 = Term::Word(Word::Array(Arr::Device(a)));
    let t1 = Term::Word(Word::Array(Arr::Group(id)));
    let t2 = Term::Brackets(Box::new(ta));
    let t3 = Term::Brackets(Box::new(tb));
    let t4 = Term::Call4(Fun::Dot32(true), Box::new(t0), Box::new(t2), Box::new(t1), Box::new(t3));
    assert(grammatical(t0));
    assert(sc.eval(t0) == Val::<V>::Pointer(Arr::Device(a), 0));
    assert(grammatical(t1));
    assert(sc.eval(t1) == Val::<V>::Pointer(Arr::Group(id), 0));
    assert(grammatical(t2));
    assert(sc.eval(t2) == sc.eval(ta));
    assert(grammatical(t3));
    assert(sc.eval(t3) == sc.eval(tb));
    assert(grammatical(t4));
    assert(sc.eval(t4) == sc.call4(Fun::Dot32(true), sc.eval(t0), sc.eval(t2), sc.eval(t1), sc.eval(t3)));
    let (p, q) = (|n: int| sc.logical(a, i + n), |n: int| shared_at(sc.l, sc.r, id, j + n));
    reveal_with_fuel(Arith::dot, 3);
    lemma_dot_same(sc.ar, |d: int| sc.logical(a, 0 + i + d), p, |d: int| shared_at(sc.l, sc.r, id, 0 + j + d), q, 32);
    t4
}

/// The product of 256 elements of type Q4K, staged.
pub open spec fn staged_256(a: u32, ta: Term, id: u32, tb: Term) -> Term {
    Term::Call4(Fun::Dot256(true), Box::new(Term::Word(Word::Array(Arr::Device(a)))), Box::new(Term::Brackets(Box::new(ta))), Box::new(Term::Word(Word::Array(Arr::Group(id)))), Box::new(Term::Brackets(Box::new(tb))))
}

proof fn lemma_staged_256_literals()
    ensures
        same("ksearch_dot_q4k256("@, "ksearch_dot_q4k256"@ + "("@),
        same(", ("@, ", "@ + "("@),
        same("), tg"@, ")"@ + ", "@ + "tg"@),
        same(", ("@, ", "@ + "("@),
        same("))"@, ")"@ + ")"@),
{
    reveal_strlit("(");
    reveal_strlit(")");
    reveal_strlit("))");
    reveal_strlit("), tg");
    reveal_strlit(", ");
    reveal_strlit(", (");
    reveal_strlit("ksearch_dot_q4k256");
    reveal_strlit("ksearch_dot_q4k256(");
    reveal_strlit("tg");
    assert("ksearch_dot_q4k256("@ =~= "ksearch_dot_q4k256"@ + "("@);
    assert(", ("@ =~= ", "@ + "("@);
    assert("), tg"@ =~= ")"@ + ", "@ + "tg"@);
    assert(", ("@ =~= ", "@ + "("@);
    assert("))"@ =~= ")"@ + ")"@);
}

proof fn lemma_staged_256_text(k: Params, a: u32, ta: Term, id: u32, tb: Term)
    ensures
        staged_dot(
            256,
            DType::Q4K,
            array_name(k, Arr::Device(a)),
            written(k, ta),
            dec(id as nat),
            written(k, tb),
        ) matches Some(s) && same(s, written(k, staged_256(a, ta, id, tb))),
{
    lemma_cat();
    lemma_staged_256_literals();
    let t0 = Term::Word(Word::Array(Arr::Device(a)));
    let t1 = Term::Word(Word::Array(Arr::Group(id)));
    let t2 = Term::Brackets(Box::new(ta));
    let t3 = Term::Brackets(Box::new(tb));
    let t4 = Term::Call4(Fun::Dot256(true), Box::new(t0), Box::new(t2), Box::new(t1), Box::new(t3));
    let na = array_name(k, Arr::Device(a));
    let nb = dec(id as nat);
    let (wa, wb) = (written(k, ta), written(k, tb));
    assert(same(written(k, t0), na));
    assert(same(written(k, t1), "tg"@ + nb));
    assert(same(written(k, t2), "("@ + written(k, ta) + ")"@));
    assert(same(written(k, t3), "("@ + written(k, tb) + ")"@));
    assert(same(written(k, t4), "ksearch_dot_q4k256"@ + "("@ + written(k, t0) + ", "@ + written(k, t2) + ", "@ + written(k, t1) + ", "@ + written(k, t3) + ")"@));
    let text = staged_dot(256, DType::Q4K, na, wa, nb, wb)->0;
    let flat = "ksearch_dot_q4k256"@ + "("@ + na + ", "@ + "("@ + wa + ")"@ + ", "@ + "tg"@ + nb + ", "@ + "("@ + wb + ")"@ + ")"@;
    assert(same(text, flat));
    assert(same(written(k, t4), flat));
}

proof fn lemma_staged_256<V>(sc: Scene<V>, a: u32, ta: Term, i: int, id: u32, tb: Term, j: int) -> (t: Term)
    requires
        (sc.k.kind)(a) == DType::Q4K,
        sc.is_index(ta, i),
        sc.is_index(tb, j),
    ensures
        t == staged_256(a, ta, id, tb),
        staged_dot(
            256,
            DType::Q4K,
            array_name(sc.k, Arr::Device(a)),
            written(sc.k, ta),
            dec(id as nat),
            written(sc.k, tb),
        ) matches Some(s) && same(s, written(sc.k, t)),
        grammatical(t),
        looseness(t) <= 0,
        sc.eval(t) == Val::<V>::Float(sc.ar.dot(|n: int| sc.logical(a, i + n), |n: int| shared_at(sc.l, sc.r, id, j + n), 256)),
{
    lemma_staged_256_text(sc.k, a, ta, id, tb);
    let t0 = Term::Word(Word::Array(Arr::Device(a)));
    let t1 = Term::Word(Word::Array(Arr::Group(id)));
    let t2 = Term::Brackets(Box::new(ta));
    let t3 = Term::Brackets(Box::new(tb));
    let t4 = Term::Call4(Fun::Dot256(true), Box::new(t0), Box::new(t2), Box::new(t1), Box::new(t3));
    assert(grammatical(t0));
    assert(sc.eval(t0) == Val::<V>::Pointer(Arr::Device(a), 0));
    assert(grammatical(t1));
    assert(sc.eval(t1) == Val::<V>::Pointer(Arr::Group(id), 0));
    assert(grammatical(t2));
    assert(sc.eval(t2) == sc.eval(ta));
    assert(grammatical(t3));
    assert(sc.eval(t3) == sc.eval(tb));
    assert(grammatical(t4));
    assert(sc.eval(t4) == sc.call4(Fun::Dot256(true), sc.eval(t0), sc.eval(t2), sc.eval(t1), sc.eval(t3)));
    let (p, q) = (|n: int| sc.logical(a, i + n), |n: int| shared_at(sc.l, sc.r, id, j + n));
    reveal_with_fuel(Arith::dot, 3);
    lemma_dot_same(sc.ar, |d: int| sc.logical(a, 0 + i + d), p, |d: int| shared_at(sc.l, sc.r, id, 0 + j + d), q, 256);
    t4
}

/// The product of 4 elements of type F16, staged.
pub open spec fn staged_four_f16(a: u32, ta: Term, id: u32, tb: Term) -> Term {
    Term::Call2(Fun::Dot, Box::new(Term::Call1(Fun::ToFloat4, Box::new(Term::Vector { group: false, half: true, width: 4, at: Box::new(Term::Brackets(Box::new(Term::Infix(Sign::Plus, Box::new(Term::Word(Word::Array(Arr::Device(a)))), Box::new(Term::Brackets(Box::new(ta))))))) }))), Box::new(Term::Vector { group: true, half: false, width: 4, at: Box::new(Term::Brackets(Box::new(Term::Infix(Sign::Plus, Box::new(Term::Word(Word::Array(Arr::Group(id)))), Box::new(Term::Brackets(Box::new(tb))))))) }))
}

proof fn lemma_staged_four_f16_literals()
    ensures
        same("dot(float4(*(device const half4*)("@, "dot"@ + "("@ + "float4"@ + "("@ + "*(device const half4*)"@ + "("@),
        same(" + ("@, " + "@ + "("@),
        same("))), *(threadgroup const float4*)(tg"@, ")"@ + ")"@ + ")"@ + ", "@ + "*(threadgroup const float4*)"@ + "("@ + "tg"@),
        same(" + ("@, " + "@ + "("@),
        same(")))"@, ")"@ + ")"@ + ")"@),
{
    reveal_strlit(" + ");
    reveal_strlit(" + (");
    reveal_strlit("(");
    reveal_strlit(")");
    reveal_strlit(")))");
    reveal_strlit("))), *(threadgroup const float4*)(tg");
    reveal_strlit("*(device const half4*)");
    reveal_strlit("*(threadgroup const float4*)");
    reveal_strlit(", ");
    reveal_strlit("dot");
    reveal_strlit("dot(float4(*(device const half4*)(");
    reveal_strlit("float4");
    reveal_strlit("tg");
    assert("dot(float4(*(device const half4*)("@ =~= "dot"@ + "("@ + "float4"@ + "("@ + "*(device const half4*)"@ + "("@);
    assert(" + ("@ =~= " + "@ + "("@);
    assert("))), *(threadgroup const float4*)(tg"@ =~= ")"@ + ")"@ + ")"@ + ", "@ + "*(threadgroup const float4*)"@ + "("@ + "tg"@);
    assert(" + ("@ =~= " + "@ + "("@);
    assert(")))"@ =~= ")"@ + ")"@ + ")"@);
}

proof fn lemma_staged_four_f16_text(k: Params, a: u32, ta: Term, id: u32, tb: Term)
    ensures
        staged_dot(
            4,
            DType::F16,
            array_name(k, Arr::Device(a)),
            written(k, ta),
            dec(id as nat),
            written(k, tb),
        ) matches Some(s) && same(s, written(k, staged_four_f16(a, ta, id, tb))),
{
    lemma_staged_four_f16_literals();
    let t0 = Term::Word(Word::Array(Arr::Device(a)));
    let t1 = Term::Word(Word::Array(Arr::Group(id)));
    let t2 = Term::Brackets(Box::new(ta));
    let t3 = Term::Infix(Sign::Plus, Box::new(t0), Box::new(t2));
    let t4 = Term::Brackets(Box::new(t3));
    let t5 = Term::Vector { group: false, half: true, width: 4, at: Box::new(t4) };
    let t6 = Term::Call1(Fun::ToFloat4, Box::new(t5));
    let t7 = Term::Brackets(Box::new(tb));
    let t8 = Term::Infix(Sign::Plus, Box::new(t1), Box::new(t7));
    let t9 = Term::Brackets(Box::new(t8));
    let t10 = Term::Vector { group: true, half: false, width: 4, at: Box::new(t9) };
    let t11 = Term::Call2(Fun::Dot, Box::new(t6), Box::new(t10));
    let na = array_name(k, Arr::Device(a));
    let nb = dec(id as nat);
    let (wa, wb) = (written(k, ta), written(k, tb));
    assert(same(written(k, t0), na));
    assert(same(written(k, t1), "tg"@ + nb));
    assert(same(written(k, t2), "("@ + written(k, ta) + ")"@));
    assert(same(written(k, t3), written(k, t0) + " + "@ + written(k, t2)));
    assert(same(written(k, t4), "("@ + written(k, t3) + ")"@));
    assert(same(written(k, t5), "*(device const half4*)"@ + written(k, t4)));
    assert(same(written(k, t6), "float4"@ + "("@ + written(k, t5) + ")"@));
    assert(same(written(k, t7), "("@ + written(k, tb) + ")"@));
    assert(same(written(k, t8), written(k, t1) + " + "@ + written(k, t7)));
    assert(same(written(k, t9), "("@ + written(k, t8) + ")"@));
    assert(same(written(k, t10), "*(threadgroup const float4*)"@ + written(k, t9)));
    assert(same(written(k, t11), "dot"@ + "("@ + written(k, t6) + ", "@ + written(k, t10) + ")"@));
    let text = staged_dot(4, DType::F16, na, wa, nb, wb)->0;
    let o0 = "dot"@ + "("@ + "float4"@ + "("@ + "*(device const half4*)"@ + "("@;
    let o1 = o0 + na;
    lemma_add2(o1, " + "@, "("@);
    let o2 = o1 + " + "@ + "("@;
    let o3 = o2 + wa;
    lemma_add7(o3, ")"@, ")"@, ")"@, ", "@, "*(threadgroup const float4*)"@, "("@, "tg"@);
    let o4 = o3 + ")"@ + ")"@ + ")"@ + ", "@ + "*(threadgroup const float4*)"@ + "("@ + "tg"@;
    let o5 = o4 + nb;
    lemma_add2(o5, " + "@, "("@);
    let o6 = o5 + " + "@ + "("@;
    let o7 = o6 + wb;
    lemma_add3(o7, ")"@, ")"@, ")"@);
    let o8 = o7 + ")"@ + ")"@ + ")"@;
    assert(same(text, o8));
    let p0 = "dot"@;
    let p1 = p0 + "("@;
    lemma_add4(p1, "float4"@, "("@, written(k, t5), ")"@);
    let p2 = p1 + "float4"@;
    let p3 = p2 + "("@;
    lemma_add2(p3, "*(device const half4*)"@, written(k, t4));
    let p4 = p3 + "*(device const half4*)"@;
    lemma_add3(p4, "("@, written(k, t3), ")"@);
    let p5 = p4 + "("@;
    lemma_add3(p5, written(k, t0), " + "@, written(k, t2));
    let p6 = p5 + na;
    let p7 = p6 + " + "@;
    lemma_add3(p7, "("@, written(k, ta), ")"@);
    let p8 = p7 + "("@;
    let p9 = p8 + wa;
    let p10 = p9 + ")"@;
    assert(same(p7 + written(k, t2), p10));
    assert(same(p5 + written(k, t3), p10));
    let p11 = p10 + ")"@;
    assert(same(p4 + written(k, t4), p11));
    assert(same(p3 + written(k, t5), p11));
    let p12 = p11 + ")"@;
    assert(same(p1 + written(k, t6), p12));
    let p13 = p12 + ", "@;
    lemma_add2(p13, "*(threadgroup const float4*)"@, written(k, t9));
    let p14 = p13 + "*(threadgroup const float4*)"@;
    lemma_add3(p14, "("@, written(k, t8), ")"@);
    let p15 = p14 + "("@;
    lemma_add3(p15, written(k, t1), " + "@, written(k, t7));
    lemma_add2(p15, "tg"@, nb);
    let p16 = p15 + "tg"@;
    let p17 = p16 + nb;
    assert(same(p15 + written(k, t1), p17));
    let p18 = p17 + " + "@;
    lemma_add3(p18, "("@, written(k, tb), ")"@);
    let p19 = p18 + "("@;
    let p20 = p19 + wb;
    let p21 = p20 + ")"@;
    assert(same(p18 + written(k, t7), p21));
    assert(same(p15 + written(k, t8), p21));
    let p22 = p21 + ")"@;
    assert(same(p14 + written(k, t9), p22));
    assert(same(p13 + written(k, t10), p22));
    let p23 = p22 + ")"@;
    assert(same(written(k, t11), p23));
    assert(same(o8, p23));
}

proof fn lemma_staged_four_f16<V>(sc: Scene<V>, a: u32, ta: Term, i: int, id: u32, tb: Term, j: int) -> (t: Term)
    requires
        (sc.k.kind)(a) == DType::F16,
        sc.is_index(ta, i),
        sc.is_index(tb, j),
    ensures
        t == staged_four_f16(a, ta, id, tb),
        staged_dot(
            4,
            DType::F16,
            array_name(sc.k, Arr::Device(a)),
            written(sc.k, ta),
            dec(id as nat),
            written(sc.k, tb),
        ) matches Some(s) && same(s, written(sc.k, t)),
        grammatical(t),
        looseness(t) <= 0,
        sc.eval(t) == Val::<V>::Float(sc.ar.dot(|n: int| sc.logical(a, i + n), |n: int| shared_at(sc.l, sc.r, id, j + n), 4)),
{
    lemma_staged_four_f16_text(sc.k, a, ta, id, tb);
    let t0 = Term::Word(Word::Array(Arr::Device(a)));
    let t1 = Term::Word(Word::Array(Arr::Group(id)));
    let t2 = Term::Brackets(Box::new(ta));
    let t3 = Term::Infix(Sign::Plus, Box::new(t0), Box::new(t2));
    let t4 = Term::Brackets(Box::new(t3));
    let t5 = Term::Vector { group: false, half: true, width: 4, at: Box::new(t4) };
    let t6 = Term::Call1(Fun::ToFloat4, Box::new(t5));
    let t7 = Term::Brackets(Box::new(tb));
    let t8 = Term::Infix(Sign::Plus, Box::new(t1), Box::new(t7));
    let t9 = Term::Brackets(Box::new(t8));
    let t10 = Term::Vector { group: true, half: false, width: 4, at: Box::new(t9) };
    let t11 = Term::Call2(Fun::Dot, Box::new(t6), Box::new(t10));
    assert(grammatical(t0));
    assert(sc.eval(t0) == Val::<V>::Pointer(Arr::Device(a), 0));
    assert(grammatical(t1));
    assert(sc.eval(t1) == Val::<V>::Pointer(Arr::Group(id), 0));
    assert(grammatical(t2));
    assert(sc.eval(t2) == sc.eval(ta));
    assert(grammatical(t3));
    assert(sc.eval(t3) == sc.infix(Sign::Plus, sc.eval(t0), sc.eval(t2)));
    assert(grammatical(t4));
    assert(sc.eval(t4) == sc.eval(t3));
    assert(grammatical(t5));
    assert(!(sc.eval(t5) is Nonsense));
    assert(grammatical(t6));
    assert(sc.eval(t6) == sc.call1(Fun::ToFloat4, sc.eval(t5)));
    assert(grammatical(t7));
    assert(sc.eval(t7) == sc.eval(tb));
    assert(grammatical(t8));
    assert(sc.eval(t8) == sc.infix(Sign::Plus, sc.eval(t1), sc.eval(t7)));
    assert(grammatical(t9));
    assert(sc.eval(t9) == sc.eval(t8));
    assert(grammatical(t10));
    assert(!(sc.eval(t10) is Nonsense));
    assert(grammatical(t11));
    assert(sc.eval(t11) == sc.call2(Fun::Dot, sc.eval(t6), sc.eval(t10)));
    let (p, q) = (|n: int| sc.logical(a, i + n), |n: int| shared_at(sc.l, sc.r, id, j + n));
    reveal_with_fuel(Arith::dot, 3);
    assert(sc.eval(t6) is Floats && sc.eval(t10) is Floats);
    let (x, y) = (sc.eval(t6)->Floats_0, sc.eval(t10)->Floats_0);
    assert(x.len() == 4 && y.len() == 4);
    assert(x[0] == p(0) && y[0] == q(0));
    assert(x[1] == p(1) && y[1] == q(1));
    assert(x[2] == p(2) && y[2] == q(2));
    assert(x[3] == p(3) && y[3] == q(3));
    lemma_dot_same(sc.ar, |n: int| x[n], p, |n: int| y[n], q, 4);
    t11
}

/// The product of 2 elements of type F16, staged.
pub open spec fn staged_two_f16(a: u32, ta: Term, id: u32, tb: Term) -> Term {
    Term::Brackets(Box::new(Term::Infix(Sign::Plus, Box::new(Term::Infix(Sign::Times, Box::new(Term::Call1(Fun::ToFloat, Box::new(Term::Member(Box::new(Term::Brackets(Box::new(Term::Vector { group: false, half: true, width: 2, at: Box::new(Term::Brackets(Box::new(Term::Infix(Sign::Plus, Box::new(Term::Word(Word::Array(Arr::Device(a)))), Box::new(Term::Brackets(Box::new(ta))))))) }))), false)))), Box::new(Term::Member(Box::new(Term::Brackets(Box::new(Term::Vector { group: true, half: false, width: 2, at: Box::new(Term::Brackets(Box::new(Term::Infix(Sign::Plus, Box::new(Term::Word(Word::Array(Arr::Group(id)))), Box::new(Term::Brackets(Box::new(tb))))))) }))), false)))), Box::new(Term::Infix(Sign::Times, Box::new(Term::Call1(Fun::ToFloat, Box::new(Term::Member(Box::new(Term::Brackets(Box::new(Term::Vector { group: false, half: true, width: 2, at: Box::new(Term::Brackets(Box::new(Term::Infix(Sign::Plus, Box::new(Term::Word(Word::Array(Arr::Device(a)))), Box::new(Term::Brackets(Box::new(ta))))))) }))), true)))), Box::new(Term::Member(Box::new(Term::Brackets(Box::new(Term::Vector { group: true, half: false, width: 2, at: Box::new(Term::Brackets(Box::new(Term::Infix(Sign::Plus, Box::new(Term::Word(Word::Array(Arr::Group(id)))), Box::new(Term::Brackets(Box::new(tb))))))) }))), true)))))))
}

proof fn lemma_staged_two_f16_literals()
    ensures
        same("(float((*(device const half2*)("@, "("@ + "float"@ + "("@ + "("@ + "*(device const half2*)"@ + "("@),
        same(" + ("@, " + "@ + "("@),
        same("))).x) * (*(threadgroup const float2*)(tg"@, ")"@ + ")"@ + ")"@ + ".x"@ + ")"@ + " * "@ + "("@ + "*(threadgroup const float2*)"@ + "("@ + "tg"@),
        same(" + ("@, " + "@ + "("@),
        same("))).x + float((*(device const half2*)("@, ")"@ + ")"@ + ")"@ + ".x"@ + " + "@ + "float"@ + "("@ + "("@ + "*(device const half2*)"@ + "("@),
        same(" + ("@, " + "@ + "("@),
        same("))).y) * (*(threadgroup const float2*)(tg"@, ")"@ + ")"@ + ")"@ + ".y"@ + ")"@ + " * "@ + "("@ + "*(threadgroup const float2*)"@ + "("@ + "tg"@),
        same(" + ("@, " + "@ + "("@),
        same("))).y)"@, ")"@ + ")"@ + ")"@ + ".y"@ + ")"@),
{
    reveal_strlit(" * ");
    reveal_strlit(" + ");
    reveal_strlit(" + (");
    reveal_strlit("(");
    reveal_strlit("(float((*(device const half2*)(");
    reveal_strlit(")");
    reveal_strlit("))).x + float((*(device const half2*)(");
    reveal_strlit("))).x) * (*(threadgroup const float2*)(tg");
    reveal_strlit("))).y)");
    reveal_strlit("))).y) * (*(threadgroup const float2*)(tg");
    reveal_strlit("*(device const half2*)");
    reveal_strlit("*(threadgroup const float2*)");
    reveal_strlit(".x");
    reveal_strlit(".y");
    reveal_strlit("float");
    reveal_strlit("tg");
    assert("(float((*(device const half2*)("@ =~= "("@ + "float"@ + "("@ + "("@ + "*(device const half2*)"@ + "("@);
    assert(" + ("@ =~= " + "@ + "("@);
    assert("))).x) * (*(threadgroup const float2*)(tg"@ =~= ")"@ + ")"@ + ")"@ + ".x"@ + ")"@ + " * "@ + "("@ + "*(threadgroup const float2*)"@ + "("@ + "tg"@);
    assert(" + ("@ =~= " + "@ + "("@);
    assert("))).x + float((*(device const half2*)("@ =~= ")"@ + ")"@ + ")"@ + ".x"@ + " + "@ + "float"@ + "("@ + "("@ + "*(device const half2*)"@ + "("@);
    assert(" + ("@ =~= " + "@ + "("@);
    assert("))).y) * (*(threadgroup const float2*)(tg"@ =~= ")"@ + ")"@ + ")"@ + ".y"@ + ")"@ + " * "@ + "("@ + "*(threadgroup const float2*)"@ + "("@ + "tg"@);
    assert(" + ("@ =~= " + "@ + "("@);
    assert("))).y)"@ =~= ")"@ + ")"@ + ")"@ + ".y"@ + ")"@);
}

proof fn lemma_staged_two_f16_text(k: Params, a: u32, ta: Term, id: u32, tb: Term)
    ensures
        staged_dot(
            2,
            DType::F16,
            array_name(k, Arr::Device(a)),
            written(k, ta),
            dec(id as nat),
            written(k, tb),
        ) matches Some(s) && same(s, written(k, staged_two_f16(a, ta, id, tb))),
{
    lemma_staged_two_f16_literals();
    let t0 = Term::Word(Word::Array(Arr::Device(a)));
    let t1 = Term::Word(Word::Array(Arr::Group(id)));
    let t2 = Term::Brackets(Box::new(ta));
    let t3 = Term::Infix(Sign::Plus, Box::new(t0), Box::new(t2));
    let t4 = Term::Brackets(Box::new(t3));
    let t5 = Term::Vector { group: false, half: true, width: 2, at: Box::new(t4) };
    let t6 = Term::Brackets(Box::new(t5));
    let t7 = Term::Member(Box::new(t6), false);
    let t8 = Term::Call1(Fun::ToFloat, Box::new(t7));
    let t9 = Term::Brackets(Box::new(tb));
    let t10 = Term::Infix(Sign::Plus, Box::new(t1), Box::new(t9));
    let t11 = Term::Brackets(Box::new(t10));
    let t12 = Term::Vector { group: true, half: false, width: 2, at: Box::new(t11) };
    let t13 = Term::Brackets(Box::new(t12));
    let t14 = Term::Member(Box::new(t13), false);
    let t15 = Term::Infix(Sign::Times, Box::new(t8), Box::new(t14));
    let t16 = Term::Brackets(Box::new(ta));
    let t17 = Term::Infix(Sign::Plus, Box::new(t0), Box::new(t16));
    let t18 = Term::Brackets(Box::new(t17));
    let t19 = Term::Vector { group: false, half: true, width: 2, at: Box::new(t18) };
    let t20 = Term::Brackets(Box::new(t19));
    let t21 = Term::Member(Box::new(t20), true);
    let t22 = Term::Call1(Fun::ToFloat, Box::new(t21));
    let t23 = Term::Brackets(Box::new(tb));
    let t24 = Term::Infix(Sign::Plus, Box::new(t1), Box::new(t23));
    let t25 = Term::Brackets(Box::new(t24));
    let t26 = Term::Vector { group: true, half: false, width: 2, at: Box::new(t25) };
    let t27 = Term::Brackets(Box::new(t26));
    let t28 = Term::Member(Box::new(t27), true);
    let t29 = Term::Infix(Sign::Times, Box::new(t22), Box::new(t28));
    let t30 = Term::Infix(Sign::Plus, Box::new(t15), Box::new(t29));
    let t31 = Term::Brackets(Box::new(t30));
    let na = array_name(k, Arr::Device(a));
    let nb = dec(id as nat);
    let (wa, wb) = (written(k, ta), written(k, tb));
    assert(same(written(k, t0), na));
    assert(same(written(k, t1), "tg"@ + nb));
    assert(same(written(k, t2), "("@ + written(k, ta) + ")"@));
    assert(same(written(k, t3), written(k, t0) + " + "@ + written(k, t2)));
    assert(same(written(k, t4), "("@ + written(k, t3) + ")"@));
    assert(same(written(k, t5), "*(device const half2*)"@ + written(k, t4)));
    assert(same(written(k, t6), "("@ + written(k, t5) + ")"@));
    assert(same(written(k, t7), written(k, t6) + ".x"@));
    assert(same(written(k, t8), "float"@ + "("@ + written(k, t7) + ")"@));
    assert(same(written(k, t9), "("@ + written(k, tb) + ")"@));
    assert(same(written(k, t10), written(k, t1) + " + "@ + written(k, t9)));
    assert(same(written(k, t11), "("@ + written(k, t10) + ")"@));
    assert(same(written(k, t12), "*(threadgroup const float2*)"@ + written(k, t11)));
    assert(same(written(k, t13), "("@ + written(k, t12) + ")"@));
    assert(same(written(k, t14), written(k, t13) + ".x"@));
    assert(same(written(k, t15), written(k, t8) + " * "@ + written(k, t14)));
    assert(same(written(k, t16), "("@ + written(k, ta) + ")"@));
    assert(same(written(k, t17), written(k, t0) + " + "@ + written(k, t16)));
    assert(same(written(k, t18), "("@ + written(k, t17) + ")"@));
    assert(same(written(k, t19), "*(device const half2*)"@ + written(k, t18)));
    assert(same(written(k, t20), "("@ + written(k, t19) + ")"@));
    assert(same(written(k, t21), written(k, t20) + ".y"@));
    assert(same(written(k, t22), "float"@ + "("@ + written(k, t21) + ")"@));
    assert(same(written(k, t23), "("@ + written(k, tb) + ")"@));
    assert(same(written(k, t24), written(k, t1) + " + "@ + written(k, t23)));
    assert(same(written(k, t25), "("@ + written(k, t24) + ")"@));
    assert(same(written(k, t26), "*(threadgroup const float2*)"@ + written(k, t25)));
    assert(same(written(k, t27), "("@ + written(k, t26) + ")"@));
    assert(same(written(k, t28), written(k, t27) + ".y"@));
    assert(same(written(k, t29), written(k, t22) + " * "@ + written(k, t28)));
    assert(same(written(k, t30), written(k, t15) + " + "@ + written(k, t29)));
    assert(same(written(k, t31), "("@ + written(k, t30) + ")"@));
    let text = staged_dot(2, DType::F16, na, wa, nb, wb)->0;
    let o0 = "("@ + "float"@ + "("@ + "("@ + "*(device const half2*)"@ + "("@;
    let o1 = o0 + na;
    lemma_add2(o1, " + "@, "("@);
    let o2 = o1 + " + "@ + "("@;
    let o3 = o2 + wa;
    lemma_add10(o3, ")"@, ")"@, ")"@, ".x"@, ")"@, " * "@, "("@, "*(threadgroup const float2*)"@, "("@, "tg"@);
    let o4 = o3 + ")"@ + ")"@ + ")"@ + ".x"@ + ")"@ + " * "@ + "("@ + "*(threadgroup const float2*)"@ + "("@ + "tg"@;
    let o5 = o4 + nb;
    lemma_add2(o5, " + "@, "("@);
    let o6 = o5 + " + "@ + "("@;
    let o7 = o6 + wb;
    lemma_add10(o7, ")"@, ")"@, ")"@, ".x"@, " + "@, "float"@, "("@, "("@, "*(device const half2*)"@, "("@);
    let o8 = o7 + ")"@ + ")"@ + ")"@ + ".x"@ + " + "@ + "float"@ + "("@ + "("@ + "*(device const half2*)"@ + "("@;
    let o9 = o8 + na;
    lemma_add2(o9, " + "@, "("@);
    let o10 = o9 + " + "@ + "("@;
    let o11 = o10 + wa;
    lemma_add10(o11, ")"@, ")"@, ")"@, ".y"@, ")"@, " * "@, "("@, "*(threadgroup const float2*)"@, "("@, "tg"@);
    let o12 = o11 + ")"@ + ")"@ + ")"@ + ".y"@ + ")"@ + " * "@ + "("@ + "*(threadgroup const float2*)"@ + "("@ + "tg"@;
    let o13 = o12 + nb;
    lemma_add2(o13, " + "@, "("@);
    let o14 = o13 + " + "@ + "("@;
    let o15 = o14 + wb;
    lemma_add5(o15, ")"@, ")"@, ")"@, ".y"@, ")"@);
    let o16 = o15 + ")"@ + ")"@ + ")"@ + ".y"@ + ")"@;
    assert(same(text, o16));
    let p0 = "("@;
    lemma_add3(p0, written(k, t15), " + "@, written(k, t29));
    lemma_add3(p0, written(k, t8), " * "@, written(k, t14));
    lemma_add4(p0, "float"@, "("@, written(k, t7), ")"@);
    let p1 = p0 + "float"@;
    let p2 = p1 + "("@;
    lemma_add2(p2, written(k, t6), ".x"@);
    lemma_add3(p2, "("@, written(k, t5), ")"@);
    let p3 = p2 + "("@;
    lemma_add2(p3, "*(device const half2*)"@, written(k, t4));
    let p4 = p3 + "*(device const half2*)"@;
    lemma_add3(p4, "("@, written(k, t3), ")"@);
    let p5 = p4 + "("@;
    lemma_add3(p5, written(k, t0), " + "@, written(k, t2));
    let p6 = p5 + na;
    let p7 = p6 + " + "@;
    lemma_add3(p7, "("@, written(k, ta), ")"@);
    let p8 = p7 + "("@;
    let p9 = p8 + wa;
    let p10 = p9 + ")"@;
    assert(same(p7 + written(k, t2), p10));
    assert(same(p5 + written(k, t3), p10));
    let p11 = p10 + ")"@;
    assert(same(p4 + written(k, t4), p11));
    assert(same(p3 + written(k, t5), p11));
    let p12 = p11 + ")"@;
    assert(same(p2 + written(k, t6), p12));
    let p13 = p12 + ".x"@;
    assert(same(p2 + written(k, t7), p13));
    let p14 = p13 + ")"@;
    assert(same(p0 + written(k, t8), p14));
    let p15 = p14 + " * "@;
    lemma_add2(p15, written(k, t13), ".x"@);
    lemma_add3(p15, "("@, written(k, t12), ")"@);
    let p16 = p15 + "("@;
    lemma_add2(p16, "*(threadgroup const float2*)"@, written(k, t11));
    let p17 = p16 + "*(threadgroup const float2*)"@;
    lemma_add3(p17, "("@, written(k, t10), ")"@);
    let p18 = p17 + "("@;
    lemma_add3(p18, written(k, t1), " + "@, written(k, t9));
    lemma_add2(p18, "tg"@, nb);
    let p19 = p18 + "tg"@;
    let p20 = p19 + nb;
    assert(same(p18 + written(k, t1), p20));
    let p21 = p20 + " + "@;
    lemma_add3(p21, "("@, written(k, tb), ")"@);
    let p22 = p21 + "("@;
    let p23 = p22 + wb;
    let p24 = p23 + ")"@;
    assert(same(p21 + written(k, t9), p24));
    assert(same(p18 + written(k, t10), p24));
    let p25 = p24 + ")"@;
    assert(same(p17 + written(k, t11), p25));
    assert(same(p16 + written(k, t12), p25));
    let p26 = p25 + ")"@;
    assert(same(p15 + written(k, t13), p26));
    let p27 = p26 + ".x"@;
    assert(same(p15 + written(k, t14), p27));
    assert(same(p0 + written(k, t15), p27));
    let p28 = p27 + " + "@;
    lemma_add3(p28, written(k, t22), " * "@, written(k, t28));
    lemma_add4(p28, "float"@, "("@, written(k, t21), ")"@);
    let p29 = p28 + "float"@;
    let p30 = p29 + "("@;
    lemma_add2(p30, written(k, t20), ".y"@);
    lemma_add3(p30, "("@, written(k, t19), ")"@);
    let p31 = p30 + "("@;
    lemma_add2(p31, "*(device const half2*)"@, written(k, t18));
    let p32 = p31 + "*(device const half2*)"@;
    lemma_add3(p32, "("@, written(k, t17), ")"@);
    let p33 = p32 + "("@;
    lemma_add3(p33, written(k, t0), " + "@, written(k, t16));
    let p34 = p33 + na;
    let p35 = p34 + " + "@;
    lemma_add3(p35, "("@, written(k, ta), ")"@);
    let p36 = p35 + "("@;
    let p37 = p36 + wa;
    let p38 = p37 + ")"@;
    assert(same(p35 + written(k, t16), p38));
    assert(same(p33 + written(k, t17), p38));
    let p39 = p38 + ")"@;
    assert(same(p32 + written(k, t18), p39));
    assert(same(p31 + written(k, t19), p39));
    let p40 = p39 + ")"@;
    assert(same(p30 + written(k, t20), p40));
    let p41 = p40 + ".y"@;
    assert(same(p30 + written(k, t21), p41));
    let p42 = p41 + ")"@;
    assert(same(p28 + written(k, t22), p42));
    let p43 = p42 + " * "@;
    lemma_add2(p43, written(k, t27), ".y"@);
    lemma_add3(p43, "("@, written(k, t26), ")"@);
    let p44 = p43 + "("@;
    lemma_add2(p44, "*(threadgroup const float2*)"@, written(k, t25));
    let p45 = p44 + "*(threadgroup const float2*)"@;
    lemma_add3(p45, "("@, written(k, t24), ")"@);
    let p46 = p45 + "("@;
    lemma_add3(p46, written(k, t1), " + "@, written(k, t23));
    lemma_add2(p46, "tg"@, nb);
    let p47 = p46 + "tg"@;
    let p48 = p47 + nb;
    assert(same(p46 + written(k, t1), p48));
    let p49 = p48 + " + "@;
    lemma_add3(p49, "("@, written(k, tb), ")"@);
    let p50 = p49 + "("@;
    let p51 = p50 + wb;
    let p52 = p51 + ")"@;
    assert(same(p49 + written(k, t23), p52));
    assert(same(p46 + written(k, t24), p52));
    let p53 = p52 + ")"@;
    assert(same(p45 + written(k, t25), p53));
    assert(same(p44 + written(k, t26), p53));
    let p54 = p53 + ")"@;
    assert(same(p43 + written(k, t27), p54));
    let p55 = p54 + ".y"@;
    assert(same(p43 + written(k, t28), p55));
    assert(same(p28 + written(k, t29), p55));
    assert(same(p0 + written(k, t30), p55));
    let p56 = p55 + ")"@;
    assert(same(written(k, t31), p56));
    assert(same(o16, p56));
}

proof fn lemma_staged_two_f16<V>(sc: Scene<V>, a: u32, ta: Term, i: int, id: u32, tb: Term, j: int) -> (t: Term)
    requires
        (sc.k.kind)(a) == DType::F16,
        sc.is_index(ta, i),
        sc.is_index(tb, j),
    ensures
        t == staged_two_f16(a, ta, id, tb),
        staged_dot(
            2,
            DType::F16,
            array_name(sc.k, Arr::Device(a)),
            written(sc.k, ta),
            dec(id as nat),
            written(sc.k, tb),
        ) matches Some(s) && same(s, written(sc.k, t)),
        grammatical(t),
        looseness(t) <= 0,
        sc.eval(t) == Val::<V>::Float(sc.ar.dot(|n: int| sc.logical(a, i + n), |n: int| shared_at(sc.l, sc.r, id, j + n), 2)),
{
    lemma_staged_two_f16_text(sc.k, a, ta, id, tb);
    let t0 = Term::Word(Word::Array(Arr::Device(a)));
    let t1 = Term::Word(Word::Array(Arr::Group(id)));
    let t2 = Term::Brackets(Box::new(ta));
    let t3 = Term::Infix(Sign::Plus, Box::new(t0), Box::new(t2));
    let t4 = Term::Brackets(Box::new(t3));
    let t5 = Term::Vector { group: false, half: true, width: 2, at: Box::new(t4) };
    let t6 = Term::Brackets(Box::new(t5));
    let t7 = Term::Member(Box::new(t6), false);
    let t8 = Term::Call1(Fun::ToFloat, Box::new(t7));
    let t9 = Term::Brackets(Box::new(tb));
    let t10 = Term::Infix(Sign::Plus, Box::new(t1), Box::new(t9));
    let t11 = Term::Brackets(Box::new(t10));
    let t12 = Term::Vector { group: true, half: false, width: 2, at: Box::new(t11) };
    let t13 = Term::Brackets(Box::new(t12));
    let t14 = Term::Member(Box::new(t13), false);
    let t15 = Term::Infix(Sign::Times, Box::new(t8), Box::new(t14));
    let t16 = Term::Brackets(Box::new(ta));
    let t17 = Term::Infix(Sign::Plus, Box::new(t0), Box::new(t16));
    let t18 = Term::Brackets(Box::new(t17));
    let t19 = Term::Vector { group: false, half: true, width: 2, at: Box::new(t18) };
    let t20 = Term::Brackets(Box::new(t19));
    let t21 = Term::Member(Box::new(t20), true);
    let t22 = Term::Call1(Fun::ToFloat, Box::new(t21));
    let t23 = Term::Brackets(Box::new(tb));
    let t24 = Term::Infix(Sign::Plus, Box::new(t1), Box::new(t23));
    let t25 = Term::Brackets(Box::new(t24));
    let t26 = Term::Vector { group: true, half: false, width: 2, at: Box::new(t25) };
    let t27 = Term::Brackets(Box::new(t26));
    let t28 = Term::Member(Box::new(t27), true);
    let t29 = Term::Infix(Sign::Times, Box::new(t22), Box::new(t28));
    let t30 = Term::Infix(Sign::Plus, Box::new(t15), Box::new(t29));
    let t31 = Term::Brackets(Box::new(t30));
    assert(grammatical(t0));
    assert(sc.eval(t0) == Val::<V>::Pointer(Arr::Device(a), 0));
    assert(grammatical(t1));
    assert(sc.eval(t1) == Val::<V>::Pointer(Arr::Group(id), 0));
    assert(grammatical(t2));
    assert(sc.eval(t2) == sc.eval(ta));
    assert(grammatical(t3));
    assert(sc.eval(t3) == sc.infix(Sign::Plus, sc.eval(t0), sc.eval(t2)));
    assert(grammatical(t4));
    assert(sc.eval(t4) == sc.eval(t3));
    assert(grammatical(t5));
    assert(!(sc.eval(t5) is Nonsense));
    assert(grammatical(t6));
    assert(sc.eval(t6) == sc.eval(t5));
    assert(grammatical(t7));
    assert(!(sc.eval(t7) is Nonsense));
    assert(grammatical(t8));
    assert(sc.eval(t8) == sc.call1(Fun::ToFloat, sc.eval(t7)));
    assert(grammatical(t9));
    assert(sc.eval(t9) == sc.eval(tb));
    assert(grammatical(t10));
    assert(sc.eval(t10) == sc.infix(Sign::Plus, sc.eval(t1), sc.eval(t9)));
    assert(grammatical(t11));
    assert(sc.eval(t11) == sc.eval(t10));
    assert(grammatical(t12));
    assert(!(sc.eval(t12) is Nonsense));
    assert(grammatical(t13));
    assert(sc.eval(t13) == sc.eval(t12));
    assert(grammatical(t14));
    assert(!(sc.eval(t14) is Nonsense));
    assert(grammatical(t15));
    assert(sc.eval(t15) == sc.infix(Sign::Times, sc.eval(t8), sc.eval(t14)));
    assert(grammatical(t16));
    assert(sc.eval(t16) == sc.eval(ta));
    assert(grammatical(t17));
    assert(sc.eval(t17) == sc.infix(Sign::Plus, sc.eval(t0), sc.eval(t16)));
    assert(grammatical(t18));
    assert(sc.eval(t18) == sc.eval(t17));
    assert(grammatical(t19));
    assert(!(sc.eval(t19) is Nonsense));
    assert(grammatical(t20));
    assert(sc.eval(t20) == sc.eval(t19));
    assert(grammatical(t21));
    assert(!(sc.eval(t21) is Nonsense));
    assert(grammatical(t22));
    assert(sc.eval(t22) == sc.call1(Fun::ToFloat, sc.eval(t21)));
    assert(grammatical(t23));
    assert(sc.eval(t23) == sc.eval(tb));
    assert(grammatical(t24));
    assert(sc.eval(t24) == sc.infix(Sign::Plus, sc.eval(t1), sc.eval(t23)));
    assert(grammatical(t25));
    assert(sc.eval(t25) == sc.eval(t24));
    assert(grammatical(t26));
    assert(!(sc.eval(t26) is Nonsense));
    assert(grammatical(t27));
    assert(sc.eval(t27) == sc.eval(t26));
    assert(grammatical(t28));
    assert(!(sc.eval(t28) is Nonsense));
    assert(grammatical(t29));
    assert(sc.eval(t29) == sc.infix(Sign::Times, sc.eval(t22), sc.eval(t28)));
    assert(grammatical(t30));
    assert(sc.eval(t30) == sc.infix(Sign::Plus, sc.eval(t15), sc.eval(t29)));
    assert(grammatical(t31));
    assert(sc.eval(t31) == sc.eval(t30));
    let (p, q) = (|n: int| sc.logical(a, i + n), |n: int| shared_at(sc.l, sc.r, id, j + n));
    reveal_with_fuel(Arith::dot, 3);
    t31
}

/// The product of 1 element of type F16, staged.
pub open spec fn staged_one_f16(a: u32, ta: Term, id: u32, tb: Term) -> Term {
    Term::Brackets(Box::new(Term::Infix(Sign::Times, Box::new(Term::Call1(Fun::ToFloat, Box::new(Term::Element(Box::new(Term::Word(Word::Array(Arr::Device(a)))), Box::new(ta))))), Box::new(Term::Element(Box::new(Term::Word(Word::Array(Arr::Group(id)))), Box::new(tb))))))
}

proof fn lemma_staged_one_f16_literals()
    ensures
        same("(float("@, "("@ + "float"@ + "("@),
        same("]) * tg"@, "]"@ + ")"@ + " * "@ + "tg"@),
        same("])"@, "]"@ + ")"@),
{
    reveal_strlit(" * ");
    reveal_strlit("(");
    reveal_strlit("(float(");
    reveal_strlit(")");
    reveal_strlit("]");
    reveal_strlit("])");
    reveal_strlit("]) * tg");
    reveal_strlit("float");
    reveal_strlit("tg");
    assert("(float("@ =~= "("@ + "float"@ + "("@);
    assert("]) * tg"@ =~= "]"@ + ")"@ + " * "@ + "tg"@);
    assert("])"@ =~= "]"@ + ")"@);
}

proof fn lemma_staged_one_f16_text(k: Params, a: u32, ta: Term, id: u32, tb: Term)
    ensures
        staged_dot(
            1,
            DType::F16,
            array_name(k, Arr::Device(a)),
            written(k, ta),
            dec(id as nat),
            written(k, tb),
        ) matches Some(s) && same(s, written(k, staged_one_f16(a, ta, id, tb))),
{
    lemma_cat();
    lemma_staged_one_f16_literals();
    let t0 = Term::Word(Word::Array(Arr::Device(a)));
    let t1 = Term::Word(Word::Array(Arr::Group(id)));
    let t2 = Term::Element(Box::new(t0), Box::new(ta));
    let t3 = Term::Call1(Fun::ToFloat, Box::new(t2));
    let t4 = Term::Element(Box::new(t1), Box::new(tb));
    let t5 = Term::Infix(Sign::Times, Box::new(t3), Box::new(t4));
    let t6 = Term::Brackets(Box::new(t5));
    let na = array_name(k, Arr::Device(a));
    let nb = dec(id as nat);
    let (wa, wb) = (written(k, ta), written(k, tb));
    assert(same(written(k, t0), na));
    assert(same(written(k, t1), "tg"@ + nb));
    assert(same(written(k, t2), written(k, t0) + "["@ + written(k, ta) + "]"@));
    assert(same(written(k, t3), "float"@ + "("@ + written(k, t2) + ")"@));
    assert(same(written(k, t4), written(k, t1) + "["@ + written(k, tb) + "]"@));
    assert(same(written(k, t5), written(k, t3) + " * "@ + written(k, t4)));
    assert(same(written(k, t6), "("@ + written(k, t5) + ")"@));
    let text = staged_dot(1, DType::F16, na, wa, nb, wb)->0;
    let flat = "("@ + "float"@ + "("@ + na + "["@ + wa + "]"@ + ")"@ + " * "@ + "tg"@ + nb + "["@ + wb + "]"@ + ")"@;
    assert(same(text, flat));
    assert(same(written(k, t6), flat));
}

proof fn lemma_staged_one_f16<V>(sc: Scene<V>, a: u32, ta: Term, i: int, id: u32, tb: Term, j: int) -> (t: Term)
    requires
        (sc.k.kind)(a) == DType::F16,
        sc.is_index(ta, i),
        sc.is_index(tb, j),
    ensures
        t == staged_one_f16(a, ta, id, tb),
        staged_dot(
            1,
            DType::F16,
            array_name(sc.k, Arr::Device(a)),
            written(sc.k, ta),
            dec(id as nat),
            written(sc.k, tb),
        ) matches Some(s) && same(s, written(sc.k, t)),
        grammatical(t),
        looseness(t) <= 0,
        sc.eval(t) == Val::<V>::Float(sc.ar.dot(|n: int| sc.logical(a, i + n), |n: int| shared_at(sc.l, sc.r, id, j + n), 1)),
{
    lemma_staged_one_f16_text(sc.k, a, ta, id, tb);
    let t0 = Term::Word(Word::Array(Arr::Device(a)));
    let t1 = Term::Word(Word::Array(Arr::Group(id)));
    let t2 = Term::Element(Box::new(t0), Box::new(ta));
    let t3 = Term::Call1(Fun::ToFloat, Box::new(t2));
    let t4 = Term::Element(Box::new(t1), Box::new(tb));
    let t5 = Term::Infix(Sign::Times, Box::new(t3), Box::new(t4));
    let t6 = Term::Brackets(Box::new(t5));
    assert(grammatical(t0));
    assert(sc.eval(t0) == Val::<V>::Pointer(Arr::Device(a), 0));
    assert(grammatical(t1));
    assert(sc.eval(t1) == Val::<V>::Pointer(Arr::Group(id), 0));
    assert(grammatical(t2));
    assert(sc.eval(t2) == sc.element(Arr::Device(a), 0 + i));
    assert(grammatical(t3));
    assert(sc.eval(t3) == sc.call1(Fun::ToFloat, sc.eval(t2)));
    assert(grammatical(t4));
    assert(sc.eval(t4) == sc.element(Arr::Group(id), 0 + j));
    assert(grammatical(t5));
    assert(sc.eval(t5) == sc.infix(Sign::Times, sc.eval(t3), sc.eval(t4)));
    assert(grammatical(t6));
    assert(sc.eval(t6) == sc.eval(t5));
    let (p, q) = (|n: int| sc.logical(a, i + n), |n: int| shared_at(sc.l, sc.r, id, j + n));
    reveal_with_fuel(Arith::dot, 3);
    t6
}

/// The product of 4 elements of type F32, staged.
pub open spec fn staged_four_float(a: u32, ta: Term, id: u32, tb: Term) -> Term {
    Term::Call2(Fun::Dot, Box::new(Term::Vector { group: false, half: false, width: 4, at: Box::new(Term::Brackets(Box::new(Term::Infix(Sign::Plus, Box::new(Term::Word(Word::Array(Arr::Device(a)))), Box::new(Term::Brackets(Box::new(ta))))))) }), Box::new(Term::Vector { group: true, half: false, width: 4, at: Box::new(Term::Brackets(Box::new(Term::Infix(Sign::Plus, Box::new(Term::Word(Word::Array(Arr::Group(id)))), Box::new(Term::Brackets(Box::new(tb))))))) }))
}

proof fn lemma_staged_four_float_literals()
    ensures
        same("dot(*(device const float4*)("@, "dot"@ + "("@ + "*(device const float4*)"@ + "("@),
        same(" + ("@, " + "@ + "("@),
        same(")), *(threadgroup const float4*)(tg"@, ")"@ + ")"@ + ", "@ + "*(threadgroup const float4*)"@ + "("@ + "tg"@),
        same(" + ("@, " + "@ + "("@),
        same(")))"@, ")"@ + ")"@ + ")"@),
{
    reveal_strlit(" + ");
    reveal_strlit(" + (");
    reveal_strlit("(");
    reveal_strlit(")");
    reveal_strlit(")))");
    reveal_strlit(")), *(threadgroup const float4*)(tg");
    reveal_strlit("*(device const float4*)");
    reveal_strlit("*(threadgroup const float4*)");
    reveal_strlit(", ");
    reveal_strlit("dot");
    reveal_strlit("dot(*(device const float4*)(");
    reveal_strlit("tg");
    assert("dot(*(device const float4*)("@ =~= "dot"@ + "("@ + "*(device const float4*)"@ + "("@);
    assert(" + ("@ =~= " + "@ + "("@);
    assert(")), *(threadgroup const float4*)(tg"@ =~= ")"@ + ")"@ + ", "@ + "*(threadgroup const float4*)"@ + "("@ + "tg"@);
    assert(" + ("@ =~= " + "@ + "("@);
    assert(")))"@ =~= ")"@ + ")"@ + ")"@);
}

proof fn lemma_staged_four_float_text(k: Params, a: u32, ta: Term, id: u32, tb: Term)
    ensures
        staged_dot(
            4,
            DType::F32,
            array_name(k, Arr::Device(a)),
            written(k, ta),
            dec(id as nat),
            written(k, tb),
        ) matches Some(s) && same(s, written(k, staged_four_float(a, ta, id, tb))),
{
    lemma_staged_four_float_literals();
    let t0 = Term::Word(Word::Array(Arr::Device(a)));
    let t1 = Term::Word(Word::Array(Arr::Group(id)));
    let t2 = Term::Brackets(Box::new(ta));
    let t3 = Term::Infix(Sign::Plus, Box::new(t0), Box::new(t2));
    let t4 = Term::Brackets(Box::new(t3));
    let t5 = Term::Vector { group: false, half: false, width: 4, at: Box::new(t4) };
    let t6 = Term::Brackets(Box::new(tb));
    let t7 = Term::Infix(Sign::Plus, Box::new(t1), Box::new(t6));
    let t8 = Term::Brackets(Box::new(t7));
    let t9 = Term::Vector { group: true, half: false, width: 4, at: Box::new(t8) };
    let t10 = Term::Call2(Fun::Dot, Box::new(t5), Box::new(t9));
    let na = array_name(k, Arr::Device(a));
    let nb = dec(id as nat);
    let (wa, wb) = (written(k, ta), written(k, tb));
    assert(same(written(k, t0), na));
    assert(same(written(k, t1), "tg"@ + nb));
    assert(same(written(k, t2), "("@ + written(k, ta) + ")"@));
    assert(same(written(k, t3), written(k, t0) + " + "@ + written(k, t2)));
    assert(same(written(k, t4), "("@ + written(k, t3) + ")"@));
    assert(same(written(k, t5), "*(device const float4*)"@ + written(k, t4)));
    assert(same(written(k, t6), "("@ + written(k, tb) + ")"@));
    assert(same(written(k, t7), written(k, t1) + " + "@ + written(k, t6)));
    assert(same(written(k, t8), "("@ + written(k, t7) + ")"@));
    assert(same(written(k, t9), "*(threadgroup const float4*)"@ + written(k, t8)));
    assert(same(written(k, t10), "dot"@ + "("@ + written(k, t5) + ", "@ + written(k, t9) + ")"@));
    let text = staged_dot(4, DType::F32, na, wa, nb, wb)->0;
    let o0 = "dot"@ + "("@ + "*(device const float4*)"@ + "("@;
    let o1 = o0 + na;
    lemma_add2(o1, " + "@, "("@);
    let o2 = o1 + " + "@ + "("@;
    let o3 = o2 + wa;
    lemma_add6(o3, ")"@, ")"@, ", "@, "*(threadgroup const float4*)"@, "("@, "tg"@);
    let o4 = o3 + ")"@ + ")"@ + ", "@ + "*(threadgroup const float4*)"@ + "("@ + "tg"@;
    let o5 = o4 + nb;
    lemma_add2(o5, " + "@, "("@);
    let o6 = o5 + " + "@ + "("@;
    let o7 = o6 + wb;
    lemma_add3(o7, ")"@, ")"@, ")"@);
    let o8 = o7 + ")"@ + ")"@ + ")"@;
    assert(same(text, o8));
    let p0 = "dot"@;
    let p1 = p0 + "("@;
    lemma_add2(p1, "*(device const float4*)"@, written(k, t4));
    let p2 = p1 + "*(device const float4*)"@;
    lemma_add3(p2, "("@, written(k, t3), ")"@);
    let p3 = p2 + "("@;
    lemma_add3(p3, written(k, t0), " + "@, written(k, t2));
    let p4 = p3 + na;
    let p5 = p4 + " + "@;
    lemma_add3(p5, "("@, written(k, ta), ")"@);
    let p6 = p5 + "("@;
    let p7 = p6 + wa;
    let p8 = p7 + ")"@;
    assert(same(p5 + written(k, t2), p8));
    assert(same(p3 + written(k, t3), p8));
    let p9 = p8 + ")"@;
    assert(same(p2 + written(k, t4), p9));
    assert(same(p1 + written(k, t5), p9));
    let p10 = p9 + ", "@;
    lemma_add2(p10, "*(threadgroup const float4*)"@, written(k, t8));
    let p11 = p10 + "*(threadgroup const float4*)"@;
    lemma_add3(p11, "("@, written(k, t7), ")"@);
    let p12 = p11 + "("@;
    lemma_add3(p12, written(k, t1), " + "@, written(k, t6));
    lemma_add2(p12, "tg"@, nb);
    let p13 = p12 + "tg"@;
    let p14 = p13 + nb;
    assert(same(p12 + written(k, t1), p14));
    let p15 = p14 + " + "@;
    lemma_add3(p15, "("@, written(k, tb), ")"@);
    let p16 = p15 + "("@;
    let p17 = p16 + wb;
    let p18 = p17 + ")"@;
    assert(same(p15 + written(k, t6), p18));
    assert(same(p12 + written(k, t7), p18));
    let p19 = p18 + ")"@;
    assert(same(p11 + written(k, t8), p19));
    assert(same(p10 + written(k, t9), p19));
    let p20 = p19 + ")"@;
    assert(same(written(k, t10), p20));
    assert(same(o8, p20));
}

proof fn lemma_staged_four_float<V>(sc: Scene<V>, a: u32, ta: Term, i: int, id: u32, tb: Term, j: int) -> (t: Term)
    requires
        (sc.k.kind)(a) == DType::F32,
        sc.is_index(ta, i),
        sc.is_index(tb, j),
    ensures
        t == staged_four_float(a, ta, id, tb),
        staged_dot(
            4,
            DType::F32,
            array_name(sc.k, Arr::Device(a)),
            written(sc.k, ta),
            dec(id as nat),
            written(sc.k, tb),
        ) matches Some(s) && same(s, written(sc.k, t)),
        grammatical(t),
        looseness(t) <= 0,
        sc.eval(t) == Val::<V>::Float(sc.ar.dot(|n: int| sc.logical(a, i + n), |n: int| shared_at(sc.l, sc.r, id, j + n), 4)),
{
    lemma_staged_four_float_text(sc.k, a, ta, id, tb);
    let t0 = Term::Word(Word::Array(Arr::Device(a)));
    let t1 = Term::Word(Word::Array(Arr::Group(id)));
    let t2 = Term::Brackets(Box::new(ta));
    let t3 = Term::Infix(Sign::Plus, Box::new(t0), Box::new(t2));
    let t4 = Term::Brackets(Box::new(t3));
    let t5 = Term::Vector { group: false, half: false, width: 4, at: Box::new(t4) };
    let t6 = Term::Brackets(Box::new(tb));
    let t7 = Term::Infix(Sign::Plus, Box::new(t1), Box::new(t6));
    let t8 = Term::Brackets(Box::new(t7));
    let t9 = Term::Vector { group: true, half: false, width: 4, at: Box::new(t8) };
    let t10 = Term::Call2(Fun::Dot, Box::new(t5), Box::new(t9));
    assert(grammatical(t0));
    assert(sc.eval(t0) == Val::<V>::Pointer(Arr::Device(a), 0));
    assert(grammatical(t1));
    assert(sc.eval(t1) == Val::<V>::Pointer(Arr::Group(id), 0));
    assert(grammatical(t2));
    assert(sc.eval(t2) == sc.eval(ta));
    assert(grammatical(t3));
    assert(sc.eval(t3) == sc.infix(Sign::Plus, sc.eval(t0), sc.eval(t2)));
    assert(grammatical(t4));
    assert(sc.eval(t4) == sc.eval(t3));
    assert(grammatical(t5));
    assert(!(sc.eval(t5) is Nonsense));
    assert(grammatical(t6));
    assert(sc.eval(t6) == sc.eval(tb));
    assert(grammatical(t7));
    assert(sc.eval(t7) == sc.infix(Sign::Plus, sc.eval(t1), sc.eval(t6)));
    assert(grammatical(t8));
    assert(sc.eval(t8) == sc.eval(t7));
    assert(grammatical(t9));
    assert(!(sc.eval(t9) is Nonsense));
    assert(grammatical(t10));
    assert(sc.eval(t10) == sc.call2(Fun::Dot, sc.eval(t5), sc.eval(t9)));
    let (p, q) = (|n: int| sc.logical(a, i + n), |n: int| shared_at(sc.l, sc.r, id, j + n));
    reveal_with_fuel(Arith::dot, 3);
    assert(sc.eval(t5) is Floats && sc.eval(t9) is Floats);
    let (x, y) = (sc.eval(t5)->Floats_0, sc.eval(t9)->Floats_0);
    assert(x.len() == 4 && y.len() == 4);
    assert(x[0] == p(0) && y[0] == q(0));
    assert(x[1] == p(1) && y[1] == q(1));
    assert(x[2] == p(2) && y[2] == q(2));
    assert(x[3] == p(3) && y[3] == q(3));
    lemma_dot_same(sc.ar, |n: int| x[n], p, |n: int| y[n], q, 4);
    t10
}

/// The product of 2 elements of type F32, staged.
pub open spec fn staged_two_float(a: u32, ta: Term, id: u32, tb: Term) -> Term {
    Term::Brackets(Box::new(Term::Infix(Sign::Plus, Box::new(Term::Infix(Sign::Times, Box::new(Term::Member(Box::new(Term::Brackets(Box::new(Term::Vector { group: false, half: false, width: 2, at: Box::new(Term::Brackets(Box::new(Term::Infix(Sign::Plus, Box::new(Term::Word(Word::Array(Arr::Device(a)))), Box::new(Term::Brackets(Box::new(ta))))))) }))), false)), Box::new(Term::Member(Box::new(Term::Brackets(Box::new(Term::Vector { group: true, half: false, width: 2, at: Box::new(Term::Brackets(Box::new(Term::Infix(Sign::Plus, Box::new(Term::Word(Word::Array(Arr::Group(id)))), Box::new(Term::Brackets(Box::new(tb))))))) }))), false)))), Box::new(Term::Infix(Sign::Times, Box::new(Term::Member(Box::new(Term::Brackets(Box::new(Term::Vector { group: false, half: false, width: 2, at: Box::new(Term::Brackets(Box::new(Term::Infix(Sign::Plus, Box::new(Term::Word(Word::Array(Arr::Device(a)))), Box::new(Term::Brackets(Box::new(ta))))))) }))), true)), Box::new(Term::Member(Box::new(Term::Brackets(Box::new(Term::Vector { group: true, half: false, width: 2, at: Box::new(Term::Brackets(Box::new(Term::Infix(Sign::Plus, Box::new(Term::Word(Word::Array(Arr::Group(id)))), Box::new(Term::Brackets(Box::new(tb))))))) }))), true)))))))
}

proof fn lemma_staged_two_float_literals()
    ensures
        same("((*(device const float2*)("@, "("@ + "("@ + "*(device const float2*)"@ + "("@),
        same(" + ("@, " + "@ + "("@),
        same("))).x * (*(threadgroup const float2*)(tg"@, ")"@ + ")"@ + ")"@ + ".x"@ + " * "@ + "("@ + "*(threadgroup const float2*)"@ + "("@ + "tg"@),
        same(" + ("@, " + "@ + "("@),
        same("))).x + (*(device const float2*)("@, ")"@ + ")"@ + ")"@ + ".x"@ + " + "@ + "("@ + "*(device const float2*)"@ + "("@),
        same(" + ("@, " + "@ + "("@),
        same("))).y * (*(threadgroup const float2*)(tg"@, ")"@ + ")"@ + ")"@ + ".y"@ + " * "@ + "("@ + "*(threadgroup const float2*)"@ + "("@ + "tg"@),
        same(" + ("@, " + "@ + "("@),
        same("))).y)"@, ")"@ + ")"@ + ")"@ + ".y"@ + ")"@),
{
    reveal_strlit(" * ");
    reveal_strlit(" + ");
    reveal_strlit(" + (");
    reveal_strlit("(");
    reveal_strlit("((*(device const float2*)(");
    reveal_strlit(")");
    reveal_strlit("))).x * (*(threadgroup const float2*)(tg");
    reveal_strlit("))).x + (*(device const float2*)(");
    reveal_strlit("))).y * (*(threadgroup const float2*)(tg");
    reveal_strlit("))).y)");
    reveal_strlit("*(device const float2*)");
    reveal_strlit("*(threadgroup const float2*)");
    reveal_strlit(".x");
    reveal_strlit(".y");
    reveal_strlit("tg");
    assert("((*(device const float2*)("@ =~= "("@ + "("@ + "*(device const float2*)"@ + "("@);
    assert(" + ("@ =~= " + "@ + "("@);
    assert("))).x * (*(threadgroup const float2*)(tg"@ =~= ")"@ + ")"@ + ")"@ + ".x"@ + " * "@ + "("@ + "*(threadgroup const float2*)"@ + "("@ + "tg"@);
    assert(" + ("@ =~= " + "@ + "("@);
    assert("))).x + (*(device const float2*)("@ =~= ")"@ + ")"@ + ")"@ + ".x"@ + " + "@ + "("@ + "*(device const float2*)"@ + "("@);
    assert(" + ("@ =~= " + "@ + "("@);
    assert("))).y * (*(threadgroup const float2*)(tg"@ =~= ")"@ + ")"@ + ")"@ + ".y"@ + " * "@ + "("@ + "*(threadgroup const float2*)"@ + "("@ + "tg"@);
    assert(" + ("@ =~= " + "@ + "("@);
    assert("))).y)"@ =~= ")"@ + ")"@ + ")"@ + ".y"@ + ")"@);
}

proof fn lemma_staged_two_float_text(k: Params, a: u32, ta: Term, id: u32, tb: Term)
    ensures
        staged_dot(
            2,
            DType::F32,
            array_name(k, Arr::Device(a)),
            written(k, ta),
            dec(id as nat),
            written(k, tb),
        ) matches Some(s) && same(s, written(k, staged_two_float(a, ta, id, tb))),
{
    lemma_staged_two_float_literals();
    let t0 = Term::Word(Word::Array(Arr::Device(a)));
    let t1 = Term::Word(Word::Array(Arr::Group(id)));
    let t2 = Term::Brackets(Box::new(ta));
    let t3 = Term::Infix(Sign::Plus, Box::new(t0), Box::new(t2));
    let t4 = Term::Brackets(Box::new(t3));
    let t5 = Term::Vector { group: false, half: false, width: 2, at: Box::new(t4) };
    let t6 = Term::Brackets(Box::new(t5));
    let t7 = Term::Member(Box::new(t6), false);
    let t8 = Term::Brackets(Box::new(tb));
    let t9 = Term::Infix(Sign::Plus, Box::new(t1), Box::new(t8));
    let t10 = Term::Brackets(Box::new(t9));
    let t11 = Term::Vector { group: true, half: false, width: 2, at: Box::new(t10) };
    let t12 = Term::Brackets(Box::new(t11));
    let t13 = Term::Member(Box::new(t12), false);
    let t14 = Term::Infix(Sign::Times, Box::new(t7), Box::new(t13));
    let t15 = Term::Brackets(Box::new(ta));
    let t16 = Term::Infix(Sign::Plus, Box::new(t0), Box::new(t15));
    let t17 = Term::Brackets(Box::new(t16));
    let t18 = Term::Vector { group: false, half: false, width: 2, at: Box::new(t17) };
    let t19 = Term::Brackets(Box::new(t18));
    let t20 = Term::Member(Box::new(t19), true);
    let t21 = Term::Brackets(Box::new(tb));
    let t22 = Term::Infix(Sign::Plus, Box::new(t1), Box::new(t21));
    let t23 = Term::Brackets(Box::new(t22));
    let t24 = Term::Vector { group: true, half: false, width: 2, at: Box::new(t23) };
    let t25 = Term::Brackets(Box::new(t24));
    let t26 = Term::Member(Box::new(t25), true);
    let t27 = Term::Infix(Sign::Times, Box::new(t20), Box::new(t26));
    let t28 = Term::Infix(Sign::Plus, Box::new(t14), Box::new(t27));
    let t29 = Term::Brackets(Box::new(t28));
    let na = array_name(k, Arr::Device(a));
    let nb = dec(id as nat);
    let (wa, wb) = (written(k, ta), written(k, tb));
    assert(same(written(k, t0), na));
    assert(same(written(k, t1), "tg"@ + nb));
    assert(same(written(k, t2), "("@ + written(k, ta) + ")"@));
    assert(same(written(k, t3), written(k, t0) + " + "@ + written(k, t2)));
    assert(same(written(k, t4), "("@ + written(k, t3) + ")"@));
    assert(same(written(k, t5), "*(device const float2*)"@ + written(k, t4)));
    assert(same(written(k, t6), "("@ + written(k, t5) + ")"@));
    assert(same(written(k, t7), written(k, t6) + ".x"@));
    assert(same(written(k, t8), "("@ + written(k, tb) + ")"@));
    assert(same(written(k, t9), written(k, t1) + " + "@ + written(k, t8)));
    assert(same(written(k, t10), "("@ + written(k, t9) + ")"@));
    assert(same(written(k, t11), "*(threadgroup const float2*)"@ + written(k, t10)));
    assert(same(written(k, t12), "("@ + written(k, t11) + ")"@));
    assert(same(written(k, t13), written(k, t12) + ".x"@));
    assert(same(written(k, t14), written(k, t7) + " * "@ + written(k, t13)));
    assert(same(written(k, t15), "("@ + written(k, ta) + ")"@));
    assert(same(written(k, t16), written(k, t0) + " + "@ + written(k, t15)));
    assert(same(written(k, t17), "("@ + written(k, t16) + ")"@));
    assert(same(written(k, t18), "*(device const float2*)"@ + written(k, t17)));
    assert(same(written(k, t19), "("@ + written(k, t18) + ")"@));
    assert(same(written(k, t20), written(k, t19) + ".y"@));
    assert(same(written(k, t21), "("@ + written(k, tb) + ")"@));
    assert(same(written(k, t22), written(k, t1) + " + "@ + written(k, t21)));
    assert(same(written(k, t23), "("@ + written(k, t22) + ")"@));
    assert(same(written(k, t24), "*(threadgroup const float2*)"@ + written(k, t23)));
    assert(same(written(k, t25), "("@ + written(k, t24) + ")"@));
    assert(same(written(k, t26), written(k, t25) + ".y"@));
    assert(same(written(k, t27), written(k, t20) + " * "@ + written(k, t26)));
    assert(same(written(k, t28), written(k, t14) + " + "@ + written(k, t27)));
    assert(same(written(k, t29), "("@ + written(k, t28) + ")"@));
    let text = staged_dot(2, DType::F32, na, wa, nb, wb)->0;
    let o0 = "("@ + "("@ + "*(device const float2*)"@ + "("@;
    let o1 = o0 + na;
    lemma_add2(o1, " + "@, "("@);
    let o2 = o1 + " + "@ + "("@;
    let o3 = o2 + wa;
    lemma_add9(o3, ")"@, ")"@, ")"@, ".x"@, " * "@, "("@, "*(threadgroup const float2*)"@, "("@, "tg"@);
    let o4 = o3 + ")"@ + ")"@ + ")"@ + ".x"@ + " * "@ + "("@ + "*(threadgroup const float2*)"@ + "("@ + "tg"@;
    let o5 = o4 + nb;
    lemma_add2(o5, " + "@, "("@);
    let o6 = o5 + " + "@ + "("@;
    let o7 = o6 + wb;
    lemma_add8(o7, ")"@, ")"@, ")"@, ".x"@, " + "@, "("@, "*(device const float2*)"@, "("@);
    let o8 = o7 + ")"@ + ")"@ + ")"@ + ".x"@ + " + "@ + "("@ + "*(device const float2*)"@ + "("@;
    let o9 = o8 + na;
    lemma_add2(o9, " + "@, "("@);
    let o10 = o9 + " + "@ + "("@;
    let o11 = o10 + wa;
    lemma_add9(o11, ")"@, ")"@, ")"@, ".y"@, " * "@, "("@, "*(threadgroup const float2*)"@, "("@, "tg"@);
    let o12 = o11 + ")"@ + ")"@ + ")"@ + ".y"@ + " * "@ + "("@ + "*(threadgroup const float2*)"@ + "("@ + "tg"@;
    let o13 = o12 + nb;
    lemma_add2(o13, " + "@, "("@);
    let o14 = o13 + " + "@ + "("@;
    let o15 = o14 + wb;
    lemma_add5(o15, ")"@, ")"@, ")"@, ".y"@, ")"@);
    let o16 = o15 + ")"@ + ")"@ + ")"@ + ".y"@ + ")"@;
    assert(same(text, o16));
    let p0 = "("@;
    lemma_add3(p0, written(k, t14), " + "@, written(k, t27));
    lemma_add3(p0, written(k, t7), " * "@, written(k, t13));
    lemma_add2(p0, written(k, t6), ".x"@);
    lemma_add3(p0, "("@, written(k, t5), ")"@);
    let p1 = p0 + "("@;
    lemma_add2(p1, "*(device const float2*)"@, written(k, t4));
    let p2 = p1 + "*(device const float2*)"@;
    lemma_add3(p2, "("@, written(k, t3), ")"@);
    let p3 = p2 + "("@;
    lemma_add3(p3, written(k, t0), " + "@, written(k, t2));
    let p4 = p3 + na;
    let p5 = p4 + " + "@;
    lemma_add3(p5, "("@, written(k, ta), ")"@);
    let p6 = p5 + "("@;
    let p7 = p6 + wa;
    let p8 = p7 + ")"@;
    assert(same(p5 + written(k, t2), p8));
    assert(same(p3 + written(k, t3), p8));
    let p9 = p8 + ")"@;
    assert(same(p2 + written(k, t4), p9));
    assert(same(p1 + written(k, t5), p9));
    let p10 = p9 + ")"@;
    assert(same(p0 + written(k, t6), p10));
    let p11 = p10 + ".x"@;
    assert(same(p0 + written(k, t7), p11));
    let p12 = p11 + " * "@;
    lemma_add2(p12, written(k, t12), ".x"@);
    lemma_add3(p12, "("@, written(k, t11), ")"@);
    let p13 = p12 + "("@;
    lemma_add2(p13, "*(threadgroup const float2*)"@, written(k, t10));
    let p14 = p13 + "*(threadgroup const float2*)"@;
    lemma_add3(p14, "("@, written(k, t9), ")"@);
    let p15 = p14 + "("@;
    lemma_add3(p15, written(k, t1), " + "@, written(k, t8));
    lemma_add2(p15, "tg"@, nb);
    let p16 = p15 + "tg"@;
    let p17 = p16 + nb;
    assert(same(p15 + written(k, t1), p17));
    let p18 = p17 + " + "@;
    lemma_add3(p18, "("@, written(k, tb), ")"@);
    let p19 = p18 + "("@;
    let p20 = p19 + wb;
    let p21 = p20 + ")"@;
    assert(same(p18 + written(k, t8), p21));
    assert(same(p15 + written(k, t9), p21));
    let p22 = p21 + ")"@;
    assert(same(p14 + written(k, t10), p22));
    assert(same(p13 + written(k, t11), p22));
    let p23 = p22 + ")"@;
    assert(same(p12 + written(k, t12), p23));
    let p24 = p23 + ".x"@;
    assert(same(p12 + written(k, t13), p24));
    assert(same(p0 + written(k, t14), p24));
    let p25 = p24 + " + "@;
    lemma_add3(p25, written(k, t20), " * "@, written(k, t26));
    lemma_add2(p25, written(k, t19), ".y"@);
    lemma_add3(p25, "("@, written(k, t18), ")"@);
    let p26 = p25 + "("@;
    lemma_add2(p26, "*(device const float2*)"@, written(k, t17));
    let p27 = p26 + "*(device const float2*)"@;
    lemma_add3(p27, "("@, written(k, t16), ")"@);
    let p28 = p27 + "("@;
    lemma_add3(p28, written(k, t0), " + "@, written(k, t15));
    let p29 = p28 + na;
    let p30 = p29 + " + "@;
    lemma_add3(p30, "("@, written(k, ta), ")"@);
    let p31 = p30 + "("@;
    let p32 = p31 + wa;
    let p33 = p32 + ")"@;
    assert(same(p30 + written(k, t15), p33));
    assert(same(p28 + written(k, t16), p33));
    let p34 = p33 + ")"@;
    assert(same(p27 + written(k, t17), p34));
    assert(same(p26 + written(k, t18), p34));
    let p35 = p34 + ")"@;
    assert(same(p25 + written(k, t19), p35));
    let p36 = p35 + ".y"@;
    assert(same(p25 + written(k, t20), p36));
    let p37 = p36 + " * "@;
    lemma_add2(p37, written(k, t25), ".y"@);
    lemma_add3(p37, "("@, written(k, t24), ")"@);
    let p38 = p37 + "("@;
    lemma_add2(p38, "*(threadgroup const float2*)"@, written(k, t23));
    let p39 = p38 + "*(threadgroup const float2*)"@;
    lemma_add3(p39, "("@, written(k, t22), ")"@);
    let p40 = p39 + "("@;
    lemma_add3(p40, written(k, t1), " + "@, written(k, t21));
    lemma_add2(p40, "tg"@, nb);
    let p41 = p40 + "tg"@;
    let p42 = p41 + nb;
    assert(same(p40 + written(k, t1), p42));
    let p43 = p42 + " + "@;
    lemma_add3(p43, "("@, written(k, tb), ")"@);
    let p44 = p43 + "("@;
    let p45 = p44 + wb;
    let p46 = p45 + ")"@;
    assert(same(p43 + written(k, t21), p46));
    assert(same(p40 + written(k, t22), p46));
    let p47 = p46 + ")"@;
    assert(same(p39 + written(k, t23), p47));
    assert(same(p38 + written(k, t24), p47));
    let p48 = p47 + ")"@;
    assert(same(p37 + written(k, t25), p48));
    let p49 = p48 + ".y"@;
    assert(same(p37 + written(k, t26), p49));
    assert(same(p25 + written(k, t27), p49));
    assert(same(p0 + written(k, t28), p49));
    let p50 = p49 + ")"@;
    assert(same(written(k, t29), p50));
    assert(same(o16, p50));
}

proof fn lemma_staged_two_float<V>(sc: Scene<V>, a: u32, ta: Term, i: int, id: u32, tb: Term, j: int) -> (t: Term)
    requires
        (sc.k.kind)(a) == DType::F32,
        sc.is_index(ta, i),
        sc.is_index(tb, j),
    ensures
        t == staged_two_float(a, ta, id, tb),
        staged_dot(
            2,
            DType::F32,
            array_name(sc.k, Arr::Device(a)),
            written(sc.k, ta),
            dec(id as nat),
            written(sc.k, tb),
        ) matches Some(s) && same(s, written(sc.k, t)),
        grammatical(t),
        looseness(t) <= 0,
        sc.eval(t) == Val::<V>::Float(sc.ar.dot(|n: int| sc.logical(a, i + n), |n: int| shared_at(sc.l, sc.r, id, j + n), 2)),
{
    lemma_staged_two_float_text(sc.k, a, ta, id, tb);
    let t0 = Term::Word(Word::Array(Arr::Device(a)));
    let t1 = Term::Word(Word::Array(Arr::Group(id)));
    let t2 = Term::Brackets(Box::new(ta));
    let t3 = Term::Infix(Sign::Plus, Box::new(t0), Box::new(t2));
    let t4 = Term::Brackets(Box::new(t3));
    let t5 = Term::Vector { group: false, half: false, width: 2, at: Box::new(t4) };
    let t6 = Term::Brackets(Box::new(t5));
    let t7 = Term::Member(Box::new(t6), false);
    let t8 = Term::Brackets(Box::new(tb));
    let t9 = Term::Infix(Sign::Plus, Box::new(t1), Box::new(t8));
    let t10 = Term::Brackets(Box::new(t9));
    let t11 = Term::Vector { group: true, half: false, width: 2, at: Box::new(t10) };
    let t12 = Term::Brackets(Box::new(t11));
    let t13 = Term::Member(Box::new(t12), false);
    let t14 = Term::Infix(Sign::Times, Box::new(t7), Box::new(t13));
    let t15 = Term::Brackets(Box::new(ta));
    let t16 = Term::Infix(Sign::Plus, Box::new(t0), Box::new(t15));
    let t17 = Term::Brackets(Box::new(t16));
    let t18 = Term::Vector { group: false, half: false, width: 2, at: Box::new(t17) };
    let t19 = Term::Brackets(Box::new(t18));
    let t20 = Term::Member(Box::new(t19), true);
    let t21 = Term::Brackets(Box::new(tb));
    let t22 = Term::Infix(Sign::Plus, Box::new(t1), Box::new(t21));
    let t23 = Term::Brackets(Box::new(t22));
    let t24 = Term::Vector { group: true, half: false, width: 2, at: Box::new(t23) };
    let t25 = Term::Brackets(Box::new(t24));
    let t26 = Term::Member(Box::new(t25), true);
    let t27 = Term::Infix(Sign::Times, Box::new(t20), Box::new(t26));
    let t28 = Term::Infix(Sign::Plus, Box::new(t14), Box::new(t27));
    let t29 = Term::Brackets(Box::new(t28));
    assert(grammatical(t0));
    assert(sc.eval(t0) == Val::<V>::Pointer(Arr::Device(a), 0));
    assert(grammatical(t1));
    assert(sc.eval(t1) == Val::<V>::Pointer(Arr::Group(id), 0));
    assert(grammatical(t2));
    assert(sc.eval(t2) == sc.eval(ta));
    assert(grammatical(t3));
    assert(sc.eval(t3) == sc.infix(Sign::Plus, sc.eval(t0), sc.eval(t2)));
    assert(grammatical(t4));
    assert(sc.eval(t4) == sc.eval(t3));
    assert(grammatical(t5));
    assert(!(sc.eval(t5) is Nonsense));
    assert(grammatical(t6));
    assert(sc.eval(t6) == sc.eval(t5));
    assert(grammatical(t7));
    assert(!(sc.eval(t7) is Nonsense));
    assert(grammatical(t8));
    assert(sc.eval(t8) == sc.eval(tb));
    assert(grammatical(t9));
    assert(sc.eval(t9) == sc.infix(Sign::Plus, sc.eval(t1), sc.eval(t8)));
    assert(grammatical(t10));
    assert(sc.eval(t10) == sc.eval(t9));
    assert(grammatical(t11));
    assert(!(sc.eval(t11) is Nonsense));
    assert(grammatical(t12));
    assert(sc.eval(t12) == sc.eval(t11));
    assert(grammatical(t13));
    assert(!(sc.eval(t13) is Nonsense));
    assert(grammatical(t14));
    assert(sc.eval(t14) == sc.infix(Sign::Times, sc.eval(t7), sc.eval(t13)));
    assert(grammatical(t15));
    assert(sc.eval(t15) == sc.eval(ta));
    assert(grammatical(t16));
    assert(sc.eval(t16) == sc.infix(Sign::Plus, sc.eval(t0), sc.eval(t15)));
    assert(grammatical(t17));
    assert(sc.eval(t17) == sc.eval(t16));
    assert(grammatical(t18));
    assert(!(sc.eval(t18) is Nonsense));
    assert(grammatical(t19));
    assert(sc.eval(t19) == sc.eval(t18));
    assert(grammatical(t20));
    assert(!(sc.eval(t20) is Nonsense));
    assert(grammatical(t21));
    assert(sc.eval(t21) == sc.eval(tb));
    assert(grammatical(t22));
    assert(sc.eval(t22) == sc.infix(Sign::Plus, sc.eval(t1), sc.eval(t21)));
    assert(grammatical(t23));
    assert(sc.eval(t23) == sc.eval(t22));
    assert(grammatical(t24));
    assert(!(sc.eval(t24) is Nonsense));
    assert(grammatical(t25));
    assert(sc.eval(t25) == sc.eval(t24));
    assert(grammatical(t26));
    assert(!(sc.eval(t26) is Nonsense));
    assert(grammatical(t27));
    assert(sc.eval(t27) == sc.infix(Sign::Times, sc.eval(t20), sc.eval(t26)));
    assert(grammatical(t28));
    assert(sc.eval(t28) == sc.infix(Sign::Plus, sc.eval(t14), sc.eval(t27)));
    assert(grammatical(t29));
    assert(sc.eval(t29) == sc.eval(t28));
    let (p, q) = (|n: int| sc.logical(a, i + n), |n: int| shared_at(sc.l, sc.r, id, j + n));
    reveal_with_fuel(Arith::dot, 3);
    t29
}

/// The product of 1 element of type F32, staged.
pub open spec fn staged_one_float(a: u32, ta: Term, id: u32, tb: Term) -> Term {
    Term::Infix(Sign::Times, Box::new(Term::Element(Box::new(Term::Word(Word::Array(Arr::Device(a)))), Box::new(ta))), Box::new(Term::Element(Box::new(Term::Word(Word::Array(Arr::Group(id)))), Box::new(tb))))
}

proof fn lemma_staged_one_float_literals()
    ensures
        same("] * tg"@, "]"@ + " * "@ + "tg"@),
{
    reveal_strlit(" * ");
    reveal_strlit("]");
    reveal_strlit("] * tg");
    reveal_strlit("tg");
    assert("] * tg"@ =~= "]"@ + " * "@ + "tg"@);
}

proof fn lemma_staged_one_float_text(k: Params, a: u32, ta: Term, id: u32, tb: Term)
    ensures
        staged_dot(
            1,
            DType::F32,
            array_name(k, Arr::Device(a)),
            written(k, ta),
            dec(id as nat),
            written(k, tb),
        ) matches Some(s) && same(s, written(k, staged_one_float(a, ta, id, tb))),
{
    lemma_cat();
    lemma_staged_one_float_literals();
    let t0 = Term::Word(Word::Array(Arr::Device(a)));
    let t1 = Term::Word(Word::Array(Arr::Group(id)));
    let t2 = Term::Element(Box::new(t0), Box::new(ta));
    let t3 = Term::Element(Box::new(t1), Box::new(tb));
    let t4 = Term::Infix(Sign::Times, Box::new(t2), Box::new(t3));
    let na = array_name(k, Arr::Device(a));
    let nb = dec(id as nat);
    let (wa, wb) = (written(k, ta), written(k, tb));
    assert(same(written(k, t0), na));
    assert(same(written(k, t1), "tg"@ + nb));
    assert(same(written(k, t2), written(k, t0) + "["@ + written(k, ta) + "]"@));
    assert(same(written(k, t3), written(k, t1) + "["@ + written(k, tb) + "]"@));
    assert(same(written(k, t4), written(k, t2) + " * "@ + written(k, t3)));
    let text = staged_dot(1, DType::F32, na, wa, nb, wb)->0;
    let flat = na + "["@ + wa + "]"@ + " * "@ + "tg"@ + nb + "["@ + wb + "]"@;
    assert(same(text, flat));
    assert(same(written(k, t4), flat));
}

proof fn lemma_staged_one_float<V>(sc: Scene<V>, a: u32, ta: Term, i: int, id: u32, tb: Term, j: int) -> (t: Term)
    requires
        (sc.k.kind)(a) == DType::F32,
        sc.is_index(ta, i),
        sc.is_index(tb, j),
    ensures
        t == staged_one_float(a, ta, id, tb),
        staged_dot(
            1,
            DType::F32,
            array_name(sc.k, Arr::Device(a)),
            written(sc.k, ta),
            dec(id as nat),
            written(sc.k, tb),
        ) matches Some(s) && same(s, written(sc.k, t)),
        grammatical(t),
        looseness(t) <= 2,
        sc.eval(t) == Val::<V>::Float(sc.ar.dot(|n: int| sc.logical(a, i + n), |n: int| shared_at(sc.l, sc.r, id, j + n), 1)),
{
    lemma_staged_one_float_text(sc.k, a, ta, id, tb);
    let t0 = Term::Word(Word::Array(Arr::Device(a)));
    let t1 = Term::Word(Word::Array(Arr::Group(id)));
    let t2 = Term::Element(Box::new(t0), Box::new(ta));
    let t3 = Term::Element(Box::new(t1), Box::new(tb));
    let t4 = Term::Infix(Sign::Times, Box::new(t2), Box::new(t3));
    assert(grammatical(t0));
    assert(sc.eval(t0) == Val::<V>::Pointer(Arr::Device(a), 0));
    assert(grammatical(t1));
    assert(sc.eval(t1) == Val::<V>::Pointer(Arr::Group(id), 0));
    assert(grammatical(t2));
    assert(sc.eval(t2) == sc.element(Arr::Device(a), 0 + i));
    assert(grammatical(t3));
    assert(sc.eval(t3) == sc.element(Arr::Group(id), 0 + j));
    assert(grammatical(t4));
    assert(sc.eval(t4) == sc.infix(Sign::Times, sc.eval(t2), sc.eval(t3)));
    let (p, q) = (|n: int| sc.logical(a, i + n), |n: int| shared_at(sc.l, sc.r, id, j + n));
    reveal_with_fuel(Arith::dot, 3);
    t4
}

/// The product of 1 element of type Q4K with those of another buffer.
pub open spec fn device_one_q4k(a: u32, ta: Term, b: u32, tb: Term) -> Term {
    Term::Brackets(Box::new(Term::Infix(Sign::Times, Box::new(Term::Call2(Fun::Load(DType::Q4K), Box::new(Term::Word(Word::Array(Arr::Device(a)))), Box::new(ta))), Box::new(Term::Call1(Fun::ToFloat, Box::new(Term::Element(Box::new(Term::Word(Word::Array(Arr::Device(b)))), Box::new(tb))))))))
}

proof fn lemma_device_one_q4k_literals()
    ensures
        same("(ksearch_load_q4k("@, "("@ + "ksearch_load_q4k"@ + "("@),
        same(") * float("@, ")"@ + " * "@ + "float"@ + "("@),
        same("]))"@, "]"@ + ")"@ + ")"@),
{
    reveal_strlit(" * ");
    reveal_strlit("(");
    reveal_strlit("(ksearch_load_q4k(");
    reveal_strlit(")");
    reveal_strlit(") * float(");
    reveal_strlit("]");
    reveal_strlit("]))");
    reveal_strlit("float");
    reveal_strlit("ksearch_load_q4k");
    assert("(ksearch_load_q4k("@ =~= "("@ + "ksearch_load_q4k"@ + "("@);
    assert(") * float("@ =~= ")"@ + " * "@ + "float"@ + "("@);
    assert("]))"@ =~= "]"@ + ")"@ + ")"@);
}

proof fn lemma_device_one_q4k_text(k: Params, a: u32, ta: Term, b: u32, tb: Term)
    ensures
        device_dot(
            1,
            DType::Q4K,
            array_name(k, Arr::Device(a)),
            written(k, ta),
            array_name(k, Arr::Device(b)),
            written(k, tb),
        ) matches Some(s) && same(s, written(k, device_one_q4k(a, ta, b, tb))),
{
    lemma_cat();
    lemma_device_one_q4k_literals();
    let t0 = Term::Word(Word::Array(Arr::Device(a)));
    let t1 = Term::Word(Word::Array(Arr::Device(b)));
    let t2 = Term::Call2(Fun::Load(DType::Q4K), Box::new(t0), Box::new(ta));
    let t3 = Term::Element(Box::new(t1), Box::new(tb));
    let t4 = Term::Call1(Fun::ToFloat, Box::new(t3));
    let t5 = Term::Infix(Sign::Times, Box::new(t2), Box::new(t4));
    let t6 = Term::Brackets(Box::new(t5));
    let na = array_name(k, Arr::Device(a));
    let nb = array_name(k, Arr::Device(b));
    let (wa, wb) = (written(k, ta), written(k, tb));
    assert(same(written(k, t0), na));
    assert(same(written(k, t1), nb));
    assert(same(written(k, t2), "ksearch_load_q4k"@ + "("@ + written(k, t0) + ", "@ + written(k, ta) + ")"@));
    assert(same(written(k, t3), written(k, t1) + "["@ + written(k, tb) + "]"@));
    assert(same(written(k, t4), "float"@ + "("@ + written(k, t3) + ")"@));
    assert(same(written(k, t5), written(k, t2) + " * "@ + written(k, t4)));
    assert(same(written(k, t6), "("@ + written(k, t5) + ")"@));
    let text = device_dot(1, DType::Q4K, na, wa, nb, wb)->0;
    let flat = "("@ + "ksearch_load_q4k"@ + "("@ + na + ", "@ + wa + ")"@ + " * "@ + "float"@ + "("@ + nb + "["@ + wb + "]"@ + ")"@ + ")"@;
    assert(same(text, flat));
    assert(same(written(k, t6), flat));
}

proof fn lemma_device_one_q4k<V>(sc: Scene<V>, a: u32, ta: Term, i: int, b: u32, tb: Term, j: int) -> (t: Term)
    requires
        (sc.k.kind)(a) == DType::Q4K,
        (sc.k.kind)(b) == DType::F16,
        sc.is_index(ta, i),
        sc.is_index(tb, j),
    ensures
        t == device_one_q4k(a, ta, b, tb),
        device_dot(
            1,
            DType::Q4K,
            array_name(sc.k, Arr::Device(a)),
            written(sc.k, ta),
            array_name(sc.k, Arr::Device(b)),
            written(sc.k, tb),
        ) matches Some(s) && same(s, written(sc.k, t)),
        grammatical(t),
        looseness(t) <= 0,
        sc.eval(t) == Val::<V>::Float(sc.ar.dot(|n: int| sc.logical(a, i + n), |n: int| sc.logical(b, j + n), 1)),
{
    lemma_device_one_q4k_text(sc.k, a, ta, b, tb);
    let t0 = Term::Word(Word::Array(Arr::Device(a)));
    let t1 = Term::Word(Word::Array(Arr::Device(b)));
    let t2 = Term::Call2(Fun::Load(DType::Q4K), Box::new(t0), Box::new(ta));
    let t3 = Term::Element(Box::new(t1), Box::new(tb));
    let t4 = Term::Call1(Fun::ToFloat, Box::new(t3));
    let t5 = Term::Infix(Sign::Times, Box::new(t2), Box::new(t4));
    let t6 = Term::Brackets(Box::new(t5));
    assert(grammatical(t0));
    assert(sc.eval(t0) == Val::<V>::Pointer(Arr::Device(a), 0));
    assert(grammatical(t1));
    assert(sc.eval(t1) == Val::<V>::Pointer(Arr::Device(b), 0));
    assert(grammatical(t2));
    assert(sc.eval(t2) == sc.call2(Fun::Load(DType::Q4K), sc.eval(t0), sc.eval(ta)));
    assert(grammatical(t3));
    assert(sc.eval(t3) == sc.element(Arr::Device(b), 0 + j));
    assert(grammatical(t4));
    assert(sc.eval(t4) == sc.call1(Fun::ToFloat, sc.eval(t3)));
    assert(grammatical(t5));
    assert(sc.eval(t5) == sc.infix(Sign::Times, sc.eval(t2), sc.eval(t4)));
    assert(grammatical(t6));
    assert(sc.eval(t6) == sc.eval(t5));
    let (p, q) = (|n: int| sc.logical(a, i + n), |n: int| sc.logical(b, j + n));
    reveal_with_fuel(Arith::dot, 3);
    t6
}

/// The product of 1 element of type Q6K with those of another buffer.
pub open spec fn device_one_q6k(a: u32, ta: Term, b: u32, tb: Term) -> Term {
    Term::Brackets(Box::new(Term::Infix(Sign::Times, Box::new(Term::Call2(Fun::Load(DType::Q6K), Box::new(Term::Word(Word::Array(Arr::Device(a)))), Box::new(ta))), Box::new(Term::Call1(Fun::ToFloat, Box::new(Term::Element(Box::new(Term::Word(Word::Array(Arr::Device(b)))), Box::new(tb))))))))
}

proof fn lemma_device_one_q6k_literals()
    ensures
        same("(ksearch_load_q6k("@, "("@ + "ksearch_load_q6k"@ + "("@),
        same(") * float("@, ")"@ + " * "@ + "float"@ + "("@),
        same("]))"@, "]"@ + ")"@ + ")"@),
{
    reveal_strlit(" * ");
    reveal_strlit("(");
    reveal_strlit("(ksearch_load_q6k(");
    reveal_strlit(")");
    reveal_strlit(") * float(");
    reveal_strlit("]");
    reveal_strlit("]))");
    reveal_strlit("float");
    reveal_strlit("ksearch_load_q6k");
    assert("(ksearch_load_q6k("@ =~= "("@ + "ksearch_load_q6k"@ + "("@);
    assert(") * float("@ =~= ")"@ + " * "@ + "float"@ + "("@);
    assert("]))"@ =~= "]"@ + ")"@ + ")"@);
}

proof fn lemma_device_one_q6k_text(k: Params, a: u32, ta: Term, b: u32, tb: Term)
    ensures
        device_dot(
            1,
            DType::Q6K,
            array_name(k, Arr::Device(a)),
            written(k, ta),
            array_name(k, Arr::Device(b)),
            written(k, tb),
        ) matches Some(s) && same(s, written(k, device_one_q6k(a, ta, b, tb))),
{
    lemma_cat();
    lemma_device_one_q6k_literals();
    let t0 = Term::Word(Word::Array(Arr::Device(a)));
    let t1 = Term::Word(Word::Array(Arr::Device(b)));
    let t2 = Term::Call2(Fun::Load(DType::Q6K), Box::new(t0), Box::new(ta));
    let t3 = Term::Element(Box::new(t1), Box::new(tb));
    let t4 = Term::Call1(Fun::ToFloat, Box::new(t3));
    let t5 = Term::Infix(Sign::Times, Box::new(t2), Box::new(t4));
    let t6 = Term::Brackets(Box::new(t5));
    let na = array_name(k, Arr::Device(a));
    let nb = array_name(k, Arr::Device(b));
    let (wa, wb) = (written(k, ta), written(k, tb));
    assert(same(written(k, t0), na));
    assert(same(written(k, t1), nb));
    assert(same(written(k, t2), "ksearch_load_q6k"@ + "("@ + written(k, t0) + ", "@ + written(k, ta) + ")"@));
    assert(same(written(k, t3), written(k, t1) + "["@ + written(k, tb) + "]"@));
    assert(same(written(k, t4), "float"@ + "("@ + written(k, t3) + ")"@));
    assert(same(written(k, t5), written(k, t2) + " * "@ + written(k, t4)));
    assert(same(written(k, t6), "("@ + written(k, t5) + ")"@));
    let text = device_dot(1, DType::Q6K, na, wa, nb, wb)->0;
    let flat = "("@ + "ksearch_load_q6k"@ + "("@ + na + ", "@ + wa + ")"@ + " * "@ + "float"@ + "("@ + nb + "["@ + wb + "]"@ + ")"@ + ")"@;
    assert(same(text, flat));
    assert(same(written(k, t6), flat));
}

proof fn lemma_device_one_q6k<V>(sc: Scene<V>, a: u32, ta: Term, i: int, b: u32, tb: Term, j: int) -> (t: Term)
    requires
        (sc.k.kind)(a) == DType::Q6K,
        (sc.k.kind)(b) == DType::F16,
        sc.is_index(ta, i),
        sc.is_index(tb, j),
    ensures
        t == device_one_q6k(a, ta, b, tb),
        device_dot(
            1,
            DType::Q6K,
            array_name(sc.k, Arr::Device(a)),
            written(sc.k, ta),
            array_name(sc.k, Arr::Device(b)),
            written(sc.k, tb),
        ) matches Some(s) && same(s, written(sc.k, t)),
        grammatical(t),
        looseness(t) <= 0,
        sc.eval(t) == Val::<V>::Float(sc.ar.dot(|n: int| sc.logical(a, i + n), |n: int| sc.logical(b, j + n), 1)),
{
    lemma_device_one_q6k_text(sc.k, a, ta, b, tb);
    let t0 = Term::Word(Word::Array(Arr::Device(a)));
    let t1 = Term::Word(Word::Array(Arr::Device(b)));
    let t2 = Term::Call2(Fun::Load(DType::Q6K), Box::new(t0), Box::new(ta));
    let t3 = Term::Element(Box::new(t1), Box::new(tb));
    let t4 = Term::Call1(Fun::ToFloat, Box::new(t3));
    let t5 = Term::Infix(Sign::Times, Box::new(t2), Box::new(t4));
    let t6 = Term::Brackets(Box::new(t5));
    assert(grammatical(t0));
    assert(sc.eval(t0) == Val::<V>::Pointer(Arr::Device(a), 0));
    assert(grammatical(t1));
    assert(sc.eval(t1) == Val::<V>::Pointer(Arr::Device(b), 0));
    assert(grammatical(t2));
    assert(sc.eval(t2) == sc.call2(Fun::Load(DType::Q6K), sc.eval(t0), sc.eval(ta)));
    assert(grammatical(t3));
    assert(sc.eval(t3) == sc.element(Arr::Device(b), 0 + j));
    assert(grammatical(t4));
    assert(sc.eval(t4) == sc.call1(Fun::ToFloat, sc.eval(t3)));
    assert(grammatical(t5));
    assert(sc.eval(t5) == sc.infix(Sign::Times, sc.eval(t2), sc.eval(t4)));
    assert(grammatical(t6));
    assert(sc.eval(t6) == sc.eval(t5));
    let (p, q) = (|n: int| sc.logical(a, i + n), |n: int| sc.logical(b, j + n));
    reveal_with_fuel(Arith::dot, 3);
    t6
}

/// The product of 1 element of type Q40 with those of another buffer.
pub open spec fn device_one_q40(a: u32, ta: Term, b: u32, tb: Term) -> Term {
    Term::Brackets(Box::new(Term::Infix(Sign::Times, Box::new(Term::Call2(Fun::Load(DType::Q40), Box::new(Term::Word(Word::Array(Arr::Device(a)))), Box::new(ta))), Box::new(Term::Call1(Fun::ToFloat, Box::new(Term::Element(Box::new(Term::Word(Word::Array(Arr::Device(b)))), Box::new(tb))))))))
}

proof fn lemma_device_one_q40_literals()
    ensures
        same("(ksearch_load_q40("@, "("@ + "ksearch_load_q40"@ + "("@),
        same(") * float("@, ")"@ + " * "@ + "float"@ + "("@),
        same("]))"@, "]"@ + ")"@ + ")"@),
{
    reveal_strlit(" * ");
    reveal_strlit("(");
    reveal_strlit("(ksearch_load_q40(");
    reveal_strlit(")");
    reveal_strlit(") * float(");
    reveal_strlit("]");
    reveal_strlit("]))");
    reveal_strlit("float");
    reveal_strlit("ksearch_load_q40");
    assert("(ksearch_load_q40("@ =~= "("@ + "ksearch_load_q40"@ + "("@);
    assert(") * float("@ =~= ")"@ + " * "@ + "float"@ + "("@);
    assert("]))"@ =~= "]"@ + ")"@ + ")"@);
}

proof fn lemma_device_one_q40_text(k: Params, a: u32, ta: Term, b: u32, tb: Term)
    ensures
        device_dot(
            1,
            DType::Q40,
            array_name(k, Arr::Device(a)),
            written(k, ta),
            array_name(k, Arr::Device(b)),
            written(k, tb),
        ) matches Some(s) && same(s, written(k, device_one_q40(a, ta, b, tb))),
{
    lemma_cat();
    lemma_device_one_q40_literals();
    let t0 = Term::Word(Word::Array(Arr::Device(a)));
    let t1 = Term::Word(Word::Array(Arr::Device(b)));
    let t2 = Term::Call2(Fun::Load(DType::Q40), Box::new(t0), Box::new(ta));
    let t3 = Term::Element(Box::new(t1), Box::new(tb));
    let t4 = Term::Call1(Fun::ToFloat, Box::new(t3));
    let t5 = Term::Infix(Sign::Times, Box::new(t2), Box::new(t4));
    let t6 = Term::Brackets(Box::new(t5));
    let na = array_name(k, Arr::Device(a));
    let nb = array_name(k, Arr::Device(b));
    let (wa, wb) = (written(k, ta), written(k, tb));
    assert(same(written(k, t0), na));
    assert(same(written(k, t1), nb));
    assert(same(written(k, t2), "ksearch_load_q40"@ + "("@ + written(k, t0) + ", "@ + written(k, ta) + ")"@));
    assert(same(written(k, t3), written(k, t1) + "["@ + written(k, tb) + "]"@));
    assert(same(written(k, t4), "float"@ + "("@ + written(k, t3) + ")"@));
    assert(same(written(k, t5), written(k, t2) + " * "@ + written(k, t4)));
    assert(same(written(k, t6), "("@ + written(k, t5) + ")"@));
    let text = device_dot(1, DType::Q40, na, wa, nb, wb)->0;
    let flat = "("@ + "ksearch_load_q40"@ + "("@ + na + ", "@ + wa + ")"@ + " * "@ + "float"@ + "("@ + nb + "["@ + wb + "]"@ + ")"@ + ")"@;
    assert(same(text, flat));
    assert(same(written(k, t6), flat));
}

proof fn lemma_device_one_q40<V>(sc: Scene<V>, a: u32, ta: Term, i: int, b: u32, tb: Term, j: int) -> (t: Term)
    requires
        (sc.k.kind)(a) == DType::Q40,
        (sc.k.kind)(b) == DType::F16,
        sc.is_index(ta, i),
        sc.is_index(tb, j),
    ensures
        t == device_one_q40(a, ta, b, tb),
        device_dot(
            1,
            DType::Q40,
            array_name(sc.k, Arr::Device(a)),
            written(sc.k, ta),
            array_name(sc.k, Arr::Device(b)),
            written(sc.k, tb),
        ) matches Some(s) && same(s, written(sc.k, t)),
        grammatical(t),
        looseness(t) <= 0,
        sc.eval(t) == Val::<V>::Float(sc.ar.dot(|n: int| sc.logical(a, i + n), |n: int| sc.logical(b, j + n), 1)),
{
    lemma_device_one_q40_text(sc.k, a, ta, b, tb);
    let t0 = Term::Word(Word::Array(Arr::Device(a)));
    let t1 = Term::Word(Word::Array(Arr::Device(b)));
    let t2 = Term::Call2(Fun::Load(DType::Q40), Box::new(t0), Box::new(ta));
    let t3 = Term::Element(Box::new(t1), Box::new(tb));
    let t4 = Term::Call1(Fun::ToFloat, Box::new(t3));
    let t5 = Term::Infix(Sign::Times, Box::new(t2), Box::new(t4));
    let t6 = Term::Brackets(Box::new(t5));
    assert(grammatical(t0));
    assert(sc.eval(t0) == Val::<V>::Pointer(Arr::Device(a), 0));
    assert(grammatical(t1));
    assert(sc.eval(t1) == Val::<V>::Pointer(Arr::Device(b), 0));
    assert(grammatical(t2));
    assert(sc.eval(t2) == sc.call2(Fun::Load(DType::Q40), sc.eval(t0), sc.eval(ta)));
    assert(grammatical(t3));
    assert(sc.eval(t3) == sc.element(Arr::Device(b), 0 + j));
    assert(grammatical(t4));
    assert(sc.eval(t4) == sc.call1(Fun::ToFloat, sc.eval(t3)));
    assert(grammatical(t5));
    assert(sc.eval(t5) == sc.infix(Sign::Times, sc.eval(t2), sc.eval(t4)));
    assert(grammatical(t6));
    assert(sc.eval(t6) == sc.eval(t5));
    let (p, q) = (|n: int| sc.logical(a, i + n), |n: int| sc.logical(b, j + n));
    reveal_with_fuel(Arith::dot, 3);
    t6
}

/// The product of 2 elements of type Q4K with those of another buffer.
pub open spec fn device_two_q4k(a: u32, ta: Term, b: u32, tb: Term) -> Term {
    Term::Call2(Fun::Dot, Box::new(Term::Call2(Fun::LoadTwo, Box::new(Term::Word(Word::Array(Arr::Device(a)))), Box::new(Term::Brackets(Box::new(ta))))), Box::new(Term::Call2(Fun::Float2, Box::new(Term::Call1(Fun::ToFloat, Box::new(Term::Element(Box::new(Term::Word(Word::Array(Arr::Device(b)))), Box::new(Term::Brackets(Box::new(tb))))))), Box::new(Term::Call1(Fun::ToFloat, Box::new(Term::Element(Box::new(Term::Word(Word::Array(Arr::Device(b)))), Box::new(Term::Infix(Sign::Plus, Box::new(Term::Brackets(Box::new(tb))), Box::new(Term::Word(Word::Count(1))))))))))))
}

proof fn lemma_device_two_q4k_literals()
    ensures
        same("dot(ksearch_load_q4k2("@, "dot"@ + "("@ + "ksearch_load_q4k2"@ + "("@),
        same(", ("@, ", "@ + "("@),
        same(")), float2(float("@, ")"@ + ")"@ + ", "@ + "float2"@ + "("@ + "float"@ + "("@),
        same("[("@, "["@ + "("@),
        same(")]), float("@, ")"@ + "]"@ + ")"@ + ", "@ + "float"@ + "("@),
        same("[("@, "["@ + "("@),
        same(") + 1u])))"@, ")"@ + " + "@ + "1u"@ + "]"@ + ")"@ + ")"@ + ")"@),
{
    reveal_strlit(" + ");
    reveal_strlit("(");
    reveal_strlit(")");
    reveal_strlit(") + 1u])))");
    reveal_strlit(")), float2(float(");
    reveal_strlit(")]), float(");
    reveal_strlit(", ");
    reveal_strlit(", (");
    reveal_strlit("1u");
    reveal_strlit("[");
    reveal_strlit("[(");
    reveal_strlit("]");
    reveal_strlit("dot");
    reveal_strlit("dot(ksearch_load_q4k2(");
    reveal_strlit("float");
    reveal_strlit("float2");
    reveal_strlit("ksearch_load_q4k2");
    assert("dot(ksearch_load_q4k2("@ =~= "dot"@ + "("@ + "ksearch_load_q4k2"@ + "("@);
    assert(", ("@ =~= ", "@ + "("@);
    assert(")), float2(float("@ =~= ")"@ + ")"@ + ", "@ + "float2"@ + "("@ + "float"@ + "("@);
    assert("[("@ =~= "["@ + "("@);
    assert(")]), float("@ =~= ")"@ + "]"@ + ")"@ + ", "@ + "float"@ + "("@);
    assert("[("@ =~= "["@ + "("@);
    assert(") + 1u])))"@ =~= ")"@ + " + "@ + "1u"@ + "]"@ + ")"@ + ")"@ + ")"@);
}

proof fn lemma_device_two_q4k_text(k: Params, a: u32, ta: Term, b: u32, tb: Term)
    ensures
        device_dot(
            2,
            DType::Q4K,
            array_name(k, Arr::Device(a)),
            written(k, ta),
            array_name(k, Arr::Device(b)),
            written(k, tb),
        ) matches Some(s) && same(s, written(k, device_two_q4k(a, ta, b, tb))),
{
    lemma_device_two_q4k_literals();
    lemma_small_counts();
    let t0 = Term::Word(Word::Array(Arr::Device(a)));
    let t1 = Term::Word(Word::Array(Arr::Device(b)));
    let t2 = Term::Brackets(Box::new(ta));
    let t3 = Term::Call2(Fun::LoadTwo, Box::new(t0), Box::new(t2));
    let t4 = Term::Brackets(Box::new(tb));
    let t5 = Term::Element(Box::new(t1), Box::new(t4));
    let t6 = Term::Call1(Fun::ToFloat, Box::new(t5));
    let t7 = Term::Brackets(Box::new(tb));
    let t8 = Term::Word(Word::Count(1));
    let t9 = Term::Infix(Sign::Plus, Box::new(t7), Box::new(t8));
    let t10 = Term::Element(Box::new(t1), Box::new(t9));
    let t11 = Term::Call1(Fun::ToFloat, Box::new(t10));
    let t12 = Term::Call2(Fun::Float2, Box::new(t6), Box::new(t11));
    let t13 = Term::Call2(Fun::Dot, Box::new(t3), Box::new(t12));
    let na = array_name(k, Arr::Device(a));
    let nb = array_name(k, Arr::Device(b));
    let (wa, wb) = (written(k, ta), written(k, tb));
    assert(same(written(k, t0), na));
    assert(same(written(k, t1), nb));
    assert(same(written(k, t2), "("@ + written(k, ta) + ")"@));
    assert(same(written(k, t3), "ksearch_load_q4k2"@ + "("@ + written(k, t0) + ", "@ + written(k, t2) + ")"@));
    assert(same(written(k, t4), "("@ + written(k, tb) + ")"@));
    assert(same(written(k, t5), written(k, t1) + "["@ + written(k, t4) + "]"@));
    assert(same(written(k, t6), "float"@ + "("@ + written(k, t5) + ")"@));
    assert(same(written(k, t7), "("@ + written(k, tb) + ")"@));
    assert(same(written(k, t8), dec(1) + "u"@));
    assert(same(written(k, t9), written(k, t7) + " + "@ + written(k, t8)));
    assert(same(written(k, t10), written(k, t1) + "["@ + written(k, t9) + "]"@));
    assert(same(written(k, t11), "float"@ + "("@ + written(k, t10) + ")"@));
    assert(same(written(k, t12), "float2"@ + "("@ + written(k, t6) + ", "@ + written(k, t11) + ")"@));
    assert(same(written(k, t13), "dot"@ + "("@ + written(k, t3) + ", "@ + written(k, t12) + ")"@));
    let text = device_dot(2, DType::Q4K, na, wa, nb, wb)->0;
    let o0 = "dot"@ + "("@ + "ksearch_load_q4k2"@ + "("@;
    let o1 = o0 + na;
    lemma_add2(o1, ", "@, "("@);
    let o2 = o1 + ", "@ + "("@;
    let o3 = o2 + wa;
    lemma_add7(o3, ")"@, ")"@, ", "@, "float2"@, "("@, "float"@, "("@);
    let o4 = o3 + ")"@ + ")"@ + ", "@ + "float2"@ + "("@ + "float"@ + "("@;
    let o5 = o4 + nb;
    lemma_add2(o5, "["@, "("@);
    let o6 = o5 + "["@ + "("@;
    let o7 = o6 + wb;
    lemma_add6(o7, ")"@, "]"@, ")"@, ", "@, "float"@, "("@);
    let o8 = o7 + ")"@ + "]"@ + ")"@ + ", "@ + "float"@ + "("@;
    let o9 = o8 + nb;
    lemma_add2(o9, "["@, "("@);
    let o10 = o9 + "["@ + "("@;
    let o11 = o10 + wb;
    lemma_add7(o11, ")"@, " + "@, "1u"@, "]"@, ")"@, ")"@, ")"@);
    let o12 = o11 + ")"@ + " + "@ + "1u"@ + "]"@ + ")"@ + ")"@ + ")"@;
    assert(same(text, o12));
    let p0 = "dot"@;
    let p1 = p0 + "("@;
    lemma_add6(p1, "ksearch_load_q4k2"@, "("@, written(k, t0), ", "@, written(k, t2), ")"@);
    let p2 = p1 + "ksearch_load_q4k2"@;
    let p3 = p2 + "("@;
    let p4 = p3 + na;
    let p5 = p4 + ", "@;
    lemma_add3(p5, "("@, written(k, ta), ")"@);
    let p6 = p5 + "("@;
    let p7 = p6 + wa;
    let p8 = p7 + ")"@;
    assert(same(p5 + written(k, t2), p8));
    let p9 = p8 + ")"@;
    assert(same(p1 + written(k, t3), p9));
    let p10 = p9 + ", "@;
    lemma_add6(p10, "float2"@, "("@, written(k, t6), ", "@, written(k, t11), ")"@);
    let p11 = p10 + "float2"@;
    let p12 = p11 + "("@;
    lemma_add4(p12, "float"@, "("@, written(k, t5), ")"@);
    let p13 = p12 + "float"@;
    let p14 = p13 + "("@;
    lemma_add4(p14, written(k, t1), "["@, written(k, t4), "]"@);
    let p15 = p14 + nb;
    let p16 = p15 + "["@;
    lemma_add3(p16, "("@, written(k, tb), ")"@);
    let p17 = p16 + "("@;
    let p18 = p17 + wb;
    let p19 = p18 + ")"@;
    assert(same(p16 + written(k, t4), p19));
    let p20 = p19 + "]"@;
    assert(same(p14 + written(k, t5), p20));
    let p21 = p20 + ")"@;
    assert(same(p12 + written(k, t6), p21));
    let p22 = p21 + ", "@;
    lemma_add4(p22, "float"@, "("@, written(k, t10), ")"@);
    let p23 = p22 + "float"@;
    let p24 = p23 + "("@;
    lemma_add4(p24, written(k, t1), "["@, written(k, t9), "]"@);
    let p25 = p24 + nb;
    let p26 = p25 + "["@;
    lemma_add3(p26, written(k, t7), " + "@, written(k, t8));
    lemma_add3(p26, "("@, written(k, tb), ")"@);
    let p27 = p26 + "("@;
    let p28 = p27 + wb;
    let p29 = p28 + ")"@;
    assert(same(p26 + written(k, t7), p29));
    let p30 = p29 + " + "@;
    let p31 = p30 + "1u"@;
    assert(same(p30 + written(k, t8), p31));
    assert(same(p26 + written(k, t9), p31));
    let p32 = p31 + "]"@;
    assert(same(p24 + written(k, t10), p32));
    let p33 = p32 + ")"@;
    assert(same(p22 + written(k, t11), p33));
    let p34 = p33 + ")"@;
    assert(same(p10 + written(k, t12), p34));
    let p35 = p34 + ")"@;
    assert(same(written(k, t13), p35));
    assert(same(o12, p35));
}

proof fn lemma_device_two_q4k<V>(sc: Scene<V>, a: u32, ta: Term, i: int, b: u32, tb: Term, j: int) -> (t: Term)
    requires
        (sc.k.kind)(a) == DType::Q4K,
        (sc.k.kind)(b) == DType::F16,
        0 <= j < 0x1_0000_0000 - 2,
        sc.is_index(ta, i),
        sc.is_index(tb, j),
    ensures
        t == device_two_q4k(a, ta, b, tb),
        device_dot(
            2,
            DType::Q4K,
            array_name(sc.k, Arr::Device(a)),
            written(sc.k, ta),
            array_name(sc.k, Arr::Device(b)),
            written(sc.k, tb),
        ) matches Some(s) && same(s, written(sc.k, t)),
        grammatical(t),
        looseness(t) <= 0,
        sc.eval(t) == Val::<V>::Float(sc.ar.dot(|n: int| sc.logical(a, i + n), |n: int| sc.logical(b, j + n), 2)),
{
    lemma_device_two_q4k_text(sc.k, a, ta, b, tb);
    let t0 = Term::Word(Word::Array(Arr::Device(a)));
    let t1 = Term::Word(Word::Array(Arr::Device(b)));
    let t2 = Term::Brackets(Box::new(ta));
    let t3 = Term::Call2(Fun::LoadTwo, Box::new(t0), Box::new(t2));
    let t4 = Term::Brackets(Box::new(tb));
    let t5 = Term::Element(Box::new(t1), Box::new(t4));
    let t6 = Term::Call1(Fun::ToFloat, Box::new(t5));
    let t7 = Term::Brackets(Box::new(tb));
    let t8 = Term::Word(Word::Count(1));
    let t9 = Term::Infix(Sign::Plus, Box::new(t7), Box::new(t8));
    let t10 = Term::Element(Box::new(t1), Box::new(t9));
    let t11 = Term::Call1(Fun::ToFloat, Box::new(t10));
    let t12 = Term::Call2(Fun::Float2, Box::new(t6), Box::new(t11));
    let t13 = Term::Call2(Fun::Dot, Box::new(t3), Box::new(t12));
    assert(grammatical(t0));
    assert(sc.eval(t0) == Val::<V>::Pointer(Arr::Device(a), 0));
    assert(grammatical(t1));
    assert(sc.eval(t1) == Val::<V>::Pointer(Arr::Device(b), 0));
    assert(grammatical(t2));
    assert(sc.eval(t2) == sc.eval(ta));
    assert(grammatical(t3));
    assert(sc.eval(t3) == sc.call2(Fun::LoadTwo, sc.eval(t0), sc.eval(t2)));
    assert(grammatical(t4));
    assert(sc.eval(t4) == sc.eval(tb));
    assert(grammatical(t5));
    assert(sc.eval(t5) == sc.element(Arr::Device(b), 0 + sc.eval(t4)->Uint_0));
    assert(grammatical(t6));
    assert(sc.eval(t6) == sc.call1(Fun::ToFloat, sc.eval(t5)));
    assert(grammatical(t7));
    assert(sc.eval(t7) == sc.eval(tb));
    assert(grammatical(t8));
    assert(grammatical(t9));
    assert(sc.eval(t9) == sc.infix(Sign::Plus, sc.eval(t7), sc.eval(t8)));
    assert(grammatical(t10));
    assert(sc.eval(t10) == sc.element(Arr::Device(b), 0 + sc.eval(t9)->Uint_0));
    assert(grammatical(t11));
    assert(sc.eval(t11) == sc.call1(Fun::ToFloat, sc.eval(t10)));
    assert(grammatical(t12));
    assert(sc.eval(t12) == sc.call2(Fun::Float2, sc.eval(t6), sc.eval(t11)));
    assert(grammatical(t13));
    assert(sc.eval(t13) == sc.call2(Fun::Dot, sc.eval(t3), sc.eval(t12)));
    let (p, q) = (|n: int| sc.logical(a, i + n), |n: int| sc.logical(b, j + n));
    reveal_with_fuel(Arith::dot, 3);
    assert(sc.eval(t3) is Floats && sc.eval(t12) is Floats);
    let (x, y) = (sc.eval(t3)->Floats_0, sc.eval(t12)->Floats_0);
    assert(x.len() == 2 && y.len() == 2);
    assert(x[0] == p(0) && y[0] == q(0));
    assert(x[1] == p(1) && y[1] == q(1));
    lemma_dot_same(sc.ar, |n: int| x[n], p, |n: int| y[n], q, 2);
    t13
}

/// The product of 4 elements of type Q4K with those of another buffer.
pub open spec fn device_four_q4k(a: u32, ta: Term, b: u32, tb: Term) -> Term {
    Term::Call2(Fun::Dot, Box::new(Term::Call2(Fun::LoadFour(DType::Q4K), Box::new(Term::Word(Word::Array(Arr::Device(a)))), Box::new(Term::Brackets(Box::new(ta))))), Box::new(Term::Call4(Fun::Float4, Box::new(Term::Call1(Fun::ToFloat, Box::new(Term::Element(Box::new(Term::Word(Word::Array(Arr::Device(b)))), Box::new(Term::Brackets(Box::new(tb))))))), Box::new(Term::Call1(Fun::ToFloat, Box::new(Term::Element(Box::new(Term::Word(Word::Array(Arr::Device(b)))), Box::new(Term::Infix(Sign::Plus, Box::new(Term::Brackets(Box::new(tb))), Box::new(Term::Word(Word::Count(1))))))))), Box::new(Term::Call1(Fun::ToFloat, Box::new(Term::Element(Box::new(Term::Word(Word::Array(Arr::Device(b)))), Box::new(Term::Infix(Sign::Plus, Box::new(Term::Brackets(Box::new(tb))), Box::new(Term::Word(Word::Count(2))))))))), Box::new(Term::Call1(Fun::ToFloat, Box::new(Term::Element(Box::new(Term::Word(Word::Array(Arr::Device(b)))), Box::new(Term::Infix(Sign::Plus, Box::new(Term::Brackets(Box::new(tb))), Box::new(Term::Word(Word::Count(3))))))))))))
}

proof fn lemma_device_four_q4k_literals()
    ensures
        same("dot(ksearch_load_q4k4("@, "dot"@ + "("@ + "ksearch_load_q4k4"@ + "("@),
        same(", ("@, ", "@ + "("@),
        same(")), float4(float("@, ")"@ + ")"@ + ", "@ + "float4"@ + "("@ + "float"@ + "("@),
        same("[("@, "["@ + "("@),
        same(")]), float("@, ")"@ + "]"@ + ")"@ + ", "@ + "float"@ + "("@),
        same("[("@, "["@ + "("@),
        same(") + 1u]), float("@, ")"@ + " + "@ + "1u"@ + "]"@ + ")"@ + ", "@ + "float"@ + "("@),
        same("[("@, "["@ + "("@),
        same(") + 2u]), float("@, ")"@ + " + "@ + "2u"@ + "]"@ + ")"@ + ", "@ + "float"@ + "("@),
        same("[("@, "["@ + "("@),
        same(") + 3u])))"@, ")"@ + " + "@ + "3u"@ + "]"@ + ")"@ + ")"@ + ")"@),
{
    reveal_strlit(" + ");
    reveal_strlit("(");
    reveal_strlit(")");
    reveal_strlit(") + 1u]), float(");
    reveal_strlit(") + 2u]), float(");
    reveal_strlit(") + 3u])))");
    reveal_strlit(")), float4(float(");
    reveal_strlit(")]), float(");
    reveal_strlit(", ");
    reveal_strlit(", (");
    reveal_strlit("1u");
    reveal_strlit("2u");
    reveal_strlit("3u");
    reveal_strlit("[");
    reveal_strlit("[(");
    reveal_strlit("]");
    reveal_strlit("dot");
    reveal_strlit("dot(ksearch_load_q4k4(");
    reveal_strlit("float");
    reveal_strlit("float4");
    reveal_strlit("ksearch_load_q4k4");
    assert("dot(ksearch_load_q4k4("@ =~= "dot"@ + "("@ + "ksearch_load_q4k4"@ + "("@);
    assert(", ("@ =~= ", "@ + "("@);
    assert(")), float4(float("@ =~= ")"@ + ")"@ + ", "@ + "float4"@ + "("@ + "float"@ + "("@);
    assert("[("@ =~= "["@ + "("@);
    assert(")]), float("@ =~= ")"@ + "]"@ + ")"@ + ", "@ + "float"@ + "("@);
    assert("[("@ =~= "["@ + "("@);
    assert(") + 1u]), float("@ =~= ")"@ + " + "@ + "1u"@ + "]"@ + ")"@ + ", "@ + "float"@ + "("@);
    assert("[("@ =~= "["@ + "("@);
    assert(") + 2u]), float("@ =~= ")"@ + " + "@ + "2u"@ + "]"@ + ")"@ + ", "@ + "float"@ + "("@);
    assert("[("@ =~= "["@ + "("@);
    assert(") + 3u])))"@ =~= ")"@ + " + "@ + "3u"@ + "]"@ + ")"@ + ")"@ + ")"@);
}

proof fn lemma_device_four_q4k_text(k: Params, a: u32, ta: Term, b: u32, tb: Term)
    ensures
        device_dot(
            4,
            DType::Q4K,
            array_name(k, Arr::Device(a)),
            written(k, ta),
            array_name(k, Arr::Device(b)),
            written(k, tb),
        ) matches Some(s) && same(s, written(k, device_four_q4k(a, ta, b, tb))),
{
    lemma_device_four_q4k_literals();
    lemma_small_counts();
    let t0 = Term::Word(Word::Array(Arr::Device(a)));
    let t1 = Term::Word(Word::Array(Arr::Device(b)));
    let t2 = Term::Brackets(Box::new(ta));
    let t3 = Term::Call2(Fun::LoadFour(DType::Q4K), Box::new(t0), Box::new(t2));
    let t4 = Term::Brackets(Box::new(tb));
    let t5 = Term::Element(Box::new(t1), Box::new(t4));
    let t6 = Term::Call1(Fun::ToFloat, Box::new(t5));
    let t7 = Term::Brackets(Box::new(tb));
    let t8 = Term::Word(Word::Count(1));
    let t9 = Term::Infix(Sign::Plus, Box::new(t7), Box::new(t8));
    let t10 = Term::Element(Box::new(t1), Box::new(t9));
    let t11 = Term::Call1(Fun::ToFloat, Box::new(t10));
    let t12 = Term::Brackets(Box::new(tb));
    let t13 = Term::Word(Word::Count(2));
    let t14 = Term::Infix(Sign::Plus, Box::new(t12), Box::new(t13));
    let t15 = Term::Element(Box::new(t1), Box::new(t14));
    let t16 = Term::Call1(Fun::ToFloat, Box::new(t15));
    let t17 = Term::Brackets(Box::new(tb));
    let t18 = Term::Word(Word::Count(3));
    let t19 = Term::Infix(Sign::Plus, Box::new(t17), Box::new(t18));
    let t20 = Term::Element(Box::new(t1), Box::new(t19));
    let t21 = Term::Call1(Fun::ToFloat, Box::new(t20));
    let t22 = Term::Call4(Fun::Float4, Box::new(t6), Box::new(t11), Box::new(t16), Box::new(t21));
    let t23 = Term::Call2(Fun::Dot, Box::new(t3), Box::new(t22));
    let na = array_name(k, Arr::Device(a));
    let nb = array_name(k, Arr::Device(b));
    let (wa, wb) = (written(k, ta), written(k, tb));
    assert(same(written(k, t0), na));
    assert(same(written(k, t1), nb));
    assert(same(written(k, t2), "("@ + written(k, ta) + ")"@));
    assert(same(written(k, t3), "ksearch_load_q4k4"@ + "("@ + written(k, t0) + ", "@ + written(k, t2) + ")"@));
    assert(same(written(k, t4), "("@ + written(k, tb) + ")"@));
    assert(same(written(k, t5), written(k, t1) + "["@ + written(k, t4) + "]"@));
    assert(same(written(k, t6), "float"@ + "("@ + written(k, t5) + ")"@));
    assert(same(written(k, t7), "("@ + written(k, tb) + ")"@));
    assert(same(written(k, t8), dec(1) + "u"@));
    assert(same(written(k, t9), written(k, t7) + " + "@ + written(k, t8)));
    assert(same(written(k, t10), written(k, t1) + "["@ + written(k, t9) + "]"@));
    assert(same(written(k, t11), "float"@ + "("@ + written(k, t10) + ")"@));
    assert(same(written(k, t12), "("@ + written(k, tb) + ")"@));
    assert(same(written(k, t13), dec(2) + "u"@));
    assert(same(written(k, t14), written(k, t12) + " + "@ + written(k, t13)));
    assert(same(written(k, t15), written(k, t1) + "["@ + written(k, t14) + "]"@));
    assert(same(written(k, t16), "float"@ + "("@ + written(k, t15) + ")"@));
    assert(same(written(k, t17), "("@ + written(k, tb) + ")"@));
    assert(same(written(k, t18), dec(3) + "u"@));
    assert(same(written(k, t19), written(k, t17) + " + "@ + written(k, t18)));
    assert(same(written(k, t20), written(k, t1) + "["@ + written(k, t19) + "]"@));
    assert(same(written(k, t21), "float"@ + "("@ + written(k, t20) + ")"@));
    assert(same(written(k, t22), "float4"@ + "("@ + written(k, t6) + ", "@ + written(k, t11) + ", "@ + written(k, t16) + ", "@ + written(k, t21) + ")"@));
    assert(same(written(k, t23), "dot"@ + "("@ + written(k, t3) + ", "@ + written(k, t22) + ")"@));
    let text = device_dot(4, DType::Q4K, na, wa, nb, wb)->0;
    let o0 = "dot"@ + "("@ + "ksearch_load_q4k4"@ + "("@;
    let o1 = o0 + na;
    lemma_add2(o1, ", "@, "("@);
    let o2 = o1 + ", "@ + "("@;
    let o3 = o2 + wa;
    lemma_add7(o3, ")"@, ")"@, ", "@, "float4"@, "("@, "float"@, "("@);
    let o4 = o3 + ")"@ + ")"@ + ", "@ + "float4"@ + "("@ + "float"@ + "("@;
    let o5 = o4 + nb;
    lemma_add2(o5, "["@, "("@);
    let o6 = o5 + "["@ + "("@;
    let o7 = o6 + wb;
    lemma_add6(o7, ")"@, "]"@, ")"@, ", "@, "float"@, "("@);
    let o8 = o7 + ")"@ + "]"@ + ")"@ + ", "@ + "float"@ + "("@;
    let o9 = o8 + nb;
    lemma_add2(o9, "["@, "("@);
    let o10 = o9 + "["@ + "("@;
    let o11 = o10 + wb;
    lemma_add8(o11, ")"@, " + "@, "1u"@, "]"@, ")"@, ", "@, "float"@, "("@);
    let o12 = o11 + ")"@ + " + "@ + "1u"@ + "]"@ + ")"@ + ", "@ + "float"@ + "("@;
    let o13 = o12 + nb;
    lemma_add2(o13, "["@, "("@);
    let o14 = o13 + "["@ + "("@;
    let o15 = o14 + wb;
    lemma_add8(o15, ")"@, " + "@, "2u"@, "]"@, ")"@, ", "@, "float"@, "("@);
    let o16 = o15 + ")"@ + " + "@ + "2u"@ + "]"@ + ")"@ + ", "@ + "float"@ + "("@;
    let o17 = o16 + nb;
    lemma_add2(o17, "["@, "("@);
    let o18 = o17 + "["@ + "("@;
    let o19 = o18 + wb;
    lemma_add7(o19, ")"@, " + "@, "3u"@, "]"@, ")"@, ")"@, ")"@);
    let o20 = o19 + ")"@ + " + "@ + "3u"@ + "]"@ + ")"@ + ")"@ + ")"@;
    assert(same(text, o20));
    let p0 = "dot"@;
    let p1 = p0 + "("@;
    lemma_add6(p1, "ksearch_load_q4k4"@, "("@, written(k, t0), ", "@, written(k, t2), ")"@);
    let p2 = p1 + "ksearch_load_q4k4"@;
    let p3 = p2 + "("@;
    let p4 = p3 + na;
    let p5 = p4 + ", "@;
    lemma_add3(p5, "("@, written(k, ta), ")"@);
    let p6 = p5 + "("@;
    let p7 = p6 + wa;
    let p8 = p7 + ")"@;
    assert(same(p5 + written(k, t2), p8));
    let p9 = p8 + ")"@;
    assert(same(p1 + written(k, t3), p9));
    let p10 = p9 + ", "@;
    lemma_add10(p10, "float4"@, "("@, written(k, t6), ", "@, written(k, t11), ", "@, written(k, t16), ", "@, written(k, t21), ")"@);
    let p11 = p10 + "float4"@;
    let p12 = p11 + "("@;
    lemma_add4(p12, "float"@, "("@, written(k, t5), ")"@);
    let p13 = p12 + "float"@;
    let p14 = p13 + "("@;
    lemma_add4(p14, written(k, t1), "["@, written(k, t4), "]"@);
    let p15 = p14 + nb;
    let p16 = p15 + "["@;
    lemma_add3(p16, "("@, written(k, tb), ")"@);
    let p17 = p16 + "("@;
    let p18 = p17 + wb;
    let p19 = p18 + ")"@;
    assert(same(p16 + written(k, t4), p19));
    let p20 = p19 + "]"@;
    assert(same(p14 + written(k, t5), p20));
    let p21 = p20 + ")"@;
    assert(same(p12 + written(k, t6), p21));
    let p22 = p21 + ", "@;
    lemma_add4(p22, "float"@, "("@, written(k, t10), ")"@);
    let p23 = p22 + "float"@;
    let p24 = p23 + "("@;
    lemma_add4(p24, written(k, t1), "["@, written(k, t9), "]"@);
    let p25 = p24 + nb;
    let p26 = p25 + "["@;
    lemma_add3(p26, written(k, t7), " + "@, written(k, t8));
    lemma_add3(p26, "("@, written(k, tb), ")"@);
    let p27 = p26 + "("@;
    let p28 = p27 + wb;
    let p29 = p28 + ")"@;
    assert(same(p26 + written(k, t7), p29));
    let p30 = p29 + " + "@;
    let p31 = p30 + "1u"@;
    assert(same(p30 + written(k, t8), p31));
    assert(same(p26 + written(k, t9), p31));
    let p32 = p31 + "]"@;
    assert(same(p24 + written(k, t10), p32));
    let p33 = p32 + ")"@;
    assert(same(p22 + written(k, t11), p33));
    let p34 = p33 + ", "@;
    lemma_add4(p34, "float"@, "("@, written(k, t15), ")"@);
    let p35 = p34 + "float"@;
    let p36 = p35 + "("@;
    lemma_add4(p36, written(k, t1), "["@, written(k, t14), "]"@);
    let p37 = p36 + nb;
    let p38 = p37 + "["@;
    lemma_add3(p38, written(k, t12), " + "@, written(k, t13));
    lemma_add3(p38, "("@, written(k, tb), ")"@);
    let p39 = p38 + "("@;
    let p40 = p39 + wb;
    let p41 = p40 + ")"@;
    assert(same(p38 + written(k, t12), p41));
    let p42 = p41 + " + "@;
    let p43 = p42 + "2u"@;
    assert(same(p42 + written(k, t13), p43));
    assert(same(p38 + written(k, t14), p43));
    let p44 = p43 + "]"@;
    assert(same(p36 + written(k, t15), p44));
    let p45 = p44 + ")"@;
    assert(same(p34 + written(k, t16), p45));
    let p46 = p45 + ", "@;
    lemma_add4(p46, "float"@, "("@, written(k, t20), ")"@);
    let p47 = p46 + "float"@;
    let p48 = p47 + "("@;
    lemma_add4(p48, written(k, t1), "["@, written(k, t19), "]"@);
    let p49 = p48 + nb;
    let p50 = p49 + "["@;
    lemma_add3(p50, written(k, t17), " + "@, written(k, t18));
    lemma_add3(p50, "("@, written(k, tb), ")"@);
    let p51 = p50 + "("@;
    let p52 = p51 + wb;
    let p53 = p52 + ")"@;
    assert(same(p50 + written(k, t17), p53));
    let p54 = p53 + " + "@;
    let p55 = p54 + "3u"@;
    assert(same(p54 + written(k, t18), p55));
    assert(same(p50 + written(k, t19), p55));
    let p56 = p55 + "]"@;
    assert(same(p48 + written(k, t20), p56));
    let p57 = p56 + ")"@;
    assert(same(p46 + written(k, t21), p57));
    let p58 = p57 + ")"@;
    assert(same(p10 + written(k, t22), p58));
    let p59 = p58 + ")"@;
    assert(same(written(k, t23), p59));
    assert(same(o20, p59));
}

proof fn lemma_device_four_q4k<V>(sc: Scene<V>, a: u32, ta: Term, i: int, b: u32, tb: Term, j: int) -> (t: Term)
    requires
        (sc.k.kind)(a) == DType::Q4K,
        (sc.k.kind)(b) == DType::F16,
        0 <= j < 0x1_0000_0000 - 4,
        sc.is_index(ta, i),
        sc.is_index(tb, j),
    ensures
        t == device_four_q4k(a, ta, b, tb),
        device_dot(
            4,
            DType::Q4K,
            array_name(sc.k, Arr::Device(a)),
            written(sc.k, ta),
            array_name(sc.k, Arr::Device(b)),
            written(sc.k, tb),
        ) matches Some(s) && same(s, written(sc.k, t)),
        grammatical(t),
        looseness(t) <= 0,
        sc.eval(t) == Val::<V>::Float(sc.ar.dot(|n: int| sc.logical(a, i + n), |n: int| sc.logical(b, j + n), 4)),
{
    lemma_device_four_q4k_text(sc.k, a, ta, b, tb);
    let t0 = Term::Word(Word::Array(Arr::Device(a)));
    let t1 = Term::Word(Word::Array(Arr::Device(b)));
    let t2 = Term::Brackets(Box::new(ta));
    let t3 = Term::Call2(Fun::LoadFour(DType::Q4K), Box::new(t0), Box::new(t2));
    let t4 = Term::Brackets(Box::new(tb));
    let t5 = Term::Element(Box::new(t1), Box::new(t4));
    let t6 = Term::Call1(Fun::ToFloat, Box::new(t5));
    let t7 = Term::Brackets(Box::new(tb));
    let t8 = Term::Word(Word::Count(1));
    let t9 = Term::Infix(Sign::Plus, Box::new(t7), Box::new(t8));
    let t10 = Term::Element(Box::new(t1), Box::new(t9));
    let t11 = Term::Call1(Fun::ToFloat, Box::new(t10));
    let t12 = Term::Brackets(Box::new(tb));
    let t13 = Term::Word(Word::Count(2));
    let t14 = Term::Infix(Sign::Plus, Box::new(t12), Box::new(t13));
    let t15 = Term::Element(Box::new(t1), Box::new(t14));
    let t16 = Term::Call1(Fun::ToFloat, Box::new(t15));
    let t17 = Term::Brackets(Box::new(tb));
    let t18 = Term::Word(Word::Count(3));
    let t19 = Term::Infix(Sign::Plus, Box::new(t17), Box::new(t18));
    let t20 = Term::Element(Box::new(t1), Box::new(t19));
    let t21 = Term::Call1(Fun::ToFloat, Box::new(t20));
    let t22 = Term::Call4(Fun::Float4, Box::new(t6), Box::new(t11), Box::new(t16), Box::new(t21));
    let t23 = Term::Call2(Fun::Dot, Box::new(t3), Box::new(t22));
    assert(grammatical(t0));
    assert(sc.eval(t0) == Val::<V>::Pointer(Arr::Device(a), 0));
    assert(grammatical(t1));
    assert(sc.eval(t1) == Val::<V>::Pointer(Arr::Device(b), 0));
    assert(grammatical(t2));
    assert(sc.eval(t2) == sc.eval(ta));
    assert(grammatical(t3));
    assert(sc.eval(t3) == sc.call2(Fun::LoadFour(DType::Q4K), sc.eval(t0), sc.eval(t2)));
    assert(grammatical(t4));
    assert(sc.eval(t4) == sc.eval(tb));
    assert(grammatical(t5));
    assert(sc.eval(t5) == sc.element(Arr::Device(b), 0 + sc.eval(t4)->Uint_0));
    assert(grammatical(t6));
    assert(sc.eval(t6) == sc.call1(Fun::ToFloat, sc.eval(t5)));
    assert(grammatical(t7));
    assert(sc.eval(t7) == sc.eval(tb));
    assert(grammatical(t8));
    assert(grammatical(t9));
    assert(sc.eval(t9) == sc.infix(Sign::Plus, sc.eval(t7), sc.eval(t8)));
    assert(grammatical(t10));
    assert(sc.eval(t10) == sc.element(Arr::Device(b), 0 + sc.eval(t9)->Uint_0));
    assert(grammatical(t11));
    assert(sc.eval(t11) == sc.call1(Fun::ToFloat, sc.eval(t10)));
    assert(grammatical(t12));
    assert(sc.eval(t12) == sc.eval(tb));
    assert(grammatical(t13));
    assert(grammatical(t14));
    assert(sc.eval(t14) == sc.infix(Sign::Plus, sc.eval(t12), sc.eval(t13)));
    assert(grammatical(t15));
    assert(sc.eval(t15) == sc.element(Arr::Device(b), 0 + sc.eval(t14)->Uint_0));
    assert(grammatical(t16));
    assert(sc.eval(t16) == sc.call1(Fun::ToFloat, sc.eval(t15)));
    assert(grammatical(t17));
    assert(sc.eval(t17) == sc.eval(tb));
    assert(grammatical(t18));
    assert(grammatical(t19));
    assert(sc.eval(t19) == sc.infix(Sign::Plus, sc.eval(t17), sc.eval(t18)));
    assert(grammatical(t20));
    assert(sc.eval(t20) == sc.element(Arr::Device(b), 0 + sc.eval(t19)->Uint_0));
    assert(grammatical(t21));
    assert(sc.eval(t21) == sc.call1(Fun::ToFloat, sc.eval(t20)));
    assert(grammatical(t22));
    assert(sc.eval(t22) == sc.call4(Fun::Float4, sc.eval(t6), sc.eval(t11), sc.eval(t16), sc.eval(t21)));
    assert(grammatical(t23));
    assert(sc.eval(t23) == sc.call2(Fun::Dot, sc.eval(t3), sc.eval(t22)));
    let (p, q) = (|n: int| sc.logical(a, i + n), |n: int| sc.logical(b, j + n));
    reveal_with_fuel(Arith::dot, 3);
    assert(sc.eval(t3) is Floats && sc.eval(t22) is Floats);
    let (x, y) = (sc.eval(t3)->Floats_0, sc.eval(t22)->Floats_0);
    assert(x.len() == 4 && y.len() == 4);
    assert(x[0] == p(0) && y[0] == q(0));
    assert(x[1] == p(1) && y[1] == q(1));
    assert(x[2] == p(2) && y[2] == q(2));
    assert(x[3] == p(3) && y[3] == q(3));
    lemma_dot_same(sc.ar, |n: int| x[n], p, |n: int| y[n], q, 4);
    t23
}

/// The product of 4 elements of type Q40 with those of another buffer.
pub open spec fn device_four_q40(a: u32, ta: Term, b: u32, tb: Term) -> Term {
    Term::Call2(Fun::Dot, Box::new(Term::Call2(Fun::LoadFour(DType::Q40), Box::new(Term::Word(Word::Array(Arr::Device(a)))), Box::new(Term::Brackets(Box::new(ta))))), Box::new(Term::Call4(Fun::Float4, Box::new(Term::Call1(Fun::ToFloat, Box::new(Term::Element(Box::new(Term::Word(Word::Array(Arr::Device(b)))), Box::new(Term::Brackets(Box::new(tb))))))), Box::new(Term::Call1(Fun::ToFloat, Box::new(Term::Element(Box::new(Term::Word(Word::Array(Arr::Device(b)))), Box::new(Term::Infix(Sign::Plus, Box::new(Term::Brackets(Box::new(tb))), Box::new(Term::Word(Word::Count(1))))))))), Box::new(Term::Call1(Fun::ToFloat, Box::new(Term::Element(Box::new(Term::Word(Word::Array(Arr::Device(b)))), Box::new(Term::Infix(Sign::Plus, Box::new(Term::Brackets(Box::new(tb))), Box::new(Term::Word(Word::Count(2))))))))), Box::new(Term::Call1(Fun::ToFloat, Box::new(Term::Element(Box::new(Term::Word(Word::Array(Arr::Device(b)))), Box::new(Term::Infix(Sign::Plus, Box::new(Term::Brackets(Box::new(tb))), Box::new(Term::Word(Word::Count(3))))))))))))
}

proof fn lemma_device_four_q40_literals()
    ensures
        same("dot(ksearch_load_q404("@, "dot"@ + "("@ + "ksearch_load_q404"@ + "("@),
        same(", ("@, ", "@ + "("@),
        same(")), float4(float("@, ")"@ + ")"@ + ", "@ + "float4"@ + "("@ + "float"@ + "("@),
        same("[("@, "["@ + "("@),
        same(")]), float("@, ")"@ + "]"@ + ")"@ + ", "@ + "float"@ + "("@),
        same("[("@, "["@ + "("@),
        same(") + 1u]), float("@, ")"@ + " + "@ + "1u"@ + "]"@ + ")"@ + ", "@ + "float"@ + "("@),
        same("[("@, "["@ + "("@),
        same(") + 2u]), float("@, ")"@ + " + "@ + "2u"@ + "]"@ + ")"@ + ", "@ + "float"@ + "("@),
        same("[("@, "["@ + "("@),
        same(") + 3u])))"@, ")"@ + " + "@ + "3u"@ + "]"@ + ")"@ + ")"@ + ")"@),
{
    reveal_strlit(" + ");
    reveal_strlit("(");
    reveal_strlit(")");
    reveal_strlit(") + 1u]), float(");
    reveal_strlit(") + 2u]), float(");
    reveal_strlit(") + 3u])))");
    reveal_strlit(")), float4(float(");
    reveal_strlit(")]), float(");
    reveal_strlit(", ");
    reveal_strlit(", (");
    reveal_strlit("1u");
    reveal_strlit("2u");
    reveal_strlit("3u");
    reveal_strlit("[");
    reveal_strlit("[(");
    reveal_strlit("]");
    reveal_strlit("dot");
    reveal_strlit("dot(ksearch_load_q404(");
    reveal_strlit("float");
    reveal_strlit("float4");
    reveal_strlit("ksearch_load_q404");
    assert("dot(ksearch_load_q404("@ =~= "dot"@ + "("@ + "ksearch_load_q404"@ + "("@);
    assert(", ("@ =~= ", "@ + "("@);
    assert(")), float4(float("@ =~= ")"@ + ")"@ + ", "@ + "float4"@ + "("@ + "float"@ + "("@);
    assert("[("@ =~= "["@ + "("@);
    assert(")]), float("@ =~= ")"@ + "]"@ + ")"@ + ", "@ + "float"@ + "("@);
    assert("[("@ =~= "["@ + "("@);
    assert(") + 1u]), float("@ =~= ")"@ + " + "@ + "1u"@ + "]"@ + ")"@ + ", "@ + "float"@ + "("@);
    assert("[("@ =~= "["@ + "("@);
    assert(") + 2u]), float("@ =~= ")"@ + " + "@ + "2u"@ + "]"@ + ")"@ + ", "@ + "float"@ + "("@);
    assert("[("@ =~= "["@ + "("@);
    assert(") + 3u])))"@ =~= ")"@ + " + "@ + "3u"@ + "]"@ + ")"@ + ")"@ + ")"@);
}

proof fn lemma_device_four_q40_text(k: Params, a: u32, ta: Term, b: u32, tb: Term)
    ensures
        device_dot(
            4,
            DType::Q40,
            array_name(k, Arr::Device(a)),
            written(k, ta),
            array_name(k, Arr::Device(b)),
            written(k, tb),
        ) matches Some(s) && same(s, written(k, device_four_q40(a, ta, b, tb))),
{
    lemma_device_four_q40_literals();
    lemma_small_counts();
    let t0 = Term::Word(Word::Array(Arr::Device(a)));
    let t1 = Term::Word(Word::Array(Arr::Device(b)));
    let t2 = Term::Brackets(Box::new(ta));
    let t3 = Term::Call2(Fun::LoadFour(DType::Q40), Box::new(t0), Box::new(t2));
    let t4 = Term::Brackets(Box::new(tb));
    let t5 = Term::Element(Box::new(t1), Box::new(t4));
    let t6 = Term::Call1(Fun::ToFloat, Box::new(t5));
    let t7 = Term::Brackets(Box::new(tb));
    let t8 = Term::Word(Word::Count(1));
    let t9 = Term::Infix(Sign::Plus, Box::new(t7), Box::new(t8));
    let t10 = Term::Element(Box::new(t1), Box::new(t9));
    let t11 = Term::Call1(Fun::ToFloat, Box::new(t10));
    let t12 = Term::Brackets(Box::new(tb));
    let t13 = Term::Word(Word::Count(2));
    let t14 = Term::Infix(Sign::Plus, Box::new(t12), Box::new(t13));
    let t15 = Term::Element(Box::new(t1), Box::new(t14));
    let t16 = Term::Call1(Fun::ToFloat, Box::new(t15));
    let t17 = Term::Brackets(Box::new(tb));
    let t18 = Term::Word(Word::Count(3));
    let t19 = Term::Infix(Sign::Plus, Box::new(t17), Box::new(t18));
    let t20 = Term::Element(Box::new(t1), Box::new(t19));
    let t21 = Term::Call1(Fun::ToFloat, Box::new(t20));
    let t22 = Term::Call4(Fun::Float4, Box::new(t6), Box::new(t11), Box::new(t16), Box::new(t21));
    let t23 = Term::Call2(Fun::Dot, Box::new(t3), Box::new(t22));
    let na = array_name(k, Arr::Device(a));
    let nb = array_name(k, Arr::Device(b));
    let (wa, wb) = (written(k, ta), written(k, tb));
    assert(same(written(k, t0), na));
    assert(same(written(k, t1), nb));
    assert(same(written(k, t2), "("@ + written(k, ta) + ")"@));
    assert(same(written(k, t3), "ksearch_load_q404"@ + "("@ + written(k, t0) + ", "@ + written(k, t2) + ")"@));
    assert(same(written(k, t4), "("@ + written(k, tb) + ")"@));
    assert(same(written(k, t5), written(k, t1) + "["@ + written(k, t4) + "]"@));
    assert(same(written(k, t6), "float"@ + "("@ + written(k, t5) + ")"@));
    assert(same(written(k, t7), "("@ + written(k, tb) + ")"@));
    assert(same(written(k, t8), dec(1) + "u"@));
    assert(same(written(k, t9), written(k, t7) + " + "@ + written(k, t8)));
    assert(same(written(k, t10), written(k, t1) + "["@ + written(k, t9) + "]"@));
    assert(same(written(k, t11), "float"@ + "("@ + written(k, t10) + ")"@));
    assert(same(written(k, t12), "("@ + written(k, tb) + ")"@));
    assert(same(written(k, t13), dec(2) + "u"@));
    assert(same(written(k, t14), written(k, t12) + " + "@ + written(k, t13)));
    assert(same(written(k, t15), written(k, t1) + "["@ + written(k, t14) + "]"@));
    assert(same(written(k, t16), "float"@ + "("@ + written(k, t15) + ")"@));
    assert(same(written(k, t17), "("@ + written(k, tb) + ")"@));
    assert(same(written(k, t18), dec(3) + "u"@));
    assert(same(written(k, t19), written(k, t17) + " + "@ + written(k, t18)));
    assert(same(written(k, t20), written(k, t1) + "["@ + written(k, t19) + "]"@));
    assert(same(written(k, t21), "float"@ + "("@ + written(k, t20) + ")"@));
    assert(same(written(k, t22), "float4"@ + "("@ + written(k, t6) + ", "@ + written(k, t11) + ", "@ + written(k, t16) + ", "@ + written(k, t21) + ")"@));
    assert(same(written(k, t23), "dot"@ + "("@ + written(k, t3) + ", "@ + written(k, t22) + ")"@));
    let text = device_dot(4, DType::Q40, na, wa, nb, wb)->0;
    let o0 = "dot"@ + "("@ + "ksearch_load_q404"@ + "("@;
    let o1 = o0 + na;
    lemma_add2(o1, ", "@, "("@);
    let o2 = o1 + ", "@ + "("@;
    let o3 = o2 + wa;
    lemma_add7(o3, ")"@, ")"@, ", "@, "float4"@, "("@, "float"@, "("@);
    let o4 = o3 + ")"@ + ")"@ + ", "@ + "float4"@ + "("@ + "float"@ + "("@;
    let o5 = o4 + nb;
    lemma_add2(o5, "["@, "("@);
    let o6 = o5 + "["@ + "("@;
    let o7 = o6 + wb;
    lemma_add6(o7, ")"@, "]"@, ")"@, ", "@, "float"@, "("@);
    let o8 = o7 + ")"@ + "]"@ + ")"@ + ", "@ + "float"@ + "("@;
    let o9 = o8 + nb;
    lemma_add2(o9, "["@, "("@);
    let o10 = o9 + "["@ + "("@;
    let o11 = o10 + wb;
    lemma_add8(o11, ")"@, " + "@, "1u"@, "]"@, ")"@, ", "@, "float"@, "("@);
    let o12 = o11 + ")"@ + " + "@ + "1u"@ + "]"@ + ")"@ + ", "@ + "float"@ + "("@;
    let o13 = o12 + nb;
    lemma_add2(o13, "["@, "("@);
    let o14 = o13 + "["@ + "("@;
    let o15 = o14 + wb;
    lemma_add8(o15, ")"@, " + "@, "2u"@, "]"@, ")"@, ", "@, "float"@, "("@);
    let o16 = o15 + ")"@ + " + "@ + "2u"@ + "]"@ + ")"@ + ", "@ + "float"@ + "("@;
    let o17 = o16 + nb;
    lemma_add2(o17, "["@, "("@);
    let o18 = o17 + "["@ + "("@;
    let o19 = o18 + wb;
    lemma_add7(o19, ")"@, " + "@, "3u"@, "]"@, ")"@, ")"@, ")"@);
    let o20 = o19 + ")"@ + " + "@ + "3u"@ + "]"@ + ")"@ + ")"@ + ")"@;
    assert(same(text, o20));
    let p0 = "dot"@;
    let p1 = p0 + "("@;
    lemma_add6(p1, "ksearch_load_q404"@, "("@, written(k, t0), ", "@, written(k, t2), ")"@);
    let p2 = p1 + "ksearch_load_q404"@;
    let p3 = p2 + "("@;
    let p4 = p3 + na;
    let p5 = p4 + ", "@;
    lemma_add3(p5, "("@, written(k, ta), ")"@);
    let p6 = p5 + "("@;
    let p7 = p6 + wa;
    let p8 = p7 + ")"@;
    assert(same(p5 + written(k, t2), p8));
    let p9 = p8 + ")"@;
    assert(same(p1 + written(k, t3), p9));
    let p10 = p9 + ", "@;
    lemma_add10(p10, "float4"@, "("@, written(k, t6), ", "@, written(k, t11), ", "@, written(k, t16), ", "@, written(k, t21), ")"@);
    let p11 = p10 + "float4"@;
    let p12 = p11 + "("@;
    lemma_add4(p12, "float"@, "("@, written(k, t5), ")"@);
    let p13 = p12 + "float"@;
    let p14 = p13 + "("@;
    lemma_add4(p14, written(k, t1), "["@, written(k, t4), "]"@);
    let p15 = p14 + nb;
    let p16 = p15 + "["@;
    lemma_add3(p16, "("@, written(k, tb), ")"@);
    let p17 = p16 + "("@;
    let p18 = p17 + wb;
    let p19 = p18 + ")"@;
    assert(same(p16 + written(k, t4), p19));
    let p20 = p19 + "]"@;
    assert(same(p14 + written(k, t5), p20));
    let p21 = p20 + ")"@;
    assert(same(p12 + written(k, t6), p21));
    let p22 = p21 + ", "@;
    lemma_add4(p22, "float"@, "("@, written(k, t10), ")"@);
    let p23 = p22 + "float"@;
    let p24 = p23 + "("@;
    lemma_add4(p24, written(k, t1), "["@, written(k, t9), "]"@);
    let p25 = p24 + nb;
    let p26 = p25 + "["@;
    lemma_add3(p26, written(k, t7), " + "@, written(k, t8));
    lemma_add3(p26, "("@, written(k, tb), ")"@);
    let p27 = p26 + "("@;
    let p28 = p27 + wb;
    let p29 = p28 + ")"@;
    assert(same(p26 + written(k, t7), p29));
    let p30 = p29 + " + "@;
    let p31 = p30 + "1u"@;
    assert(same(p30 + written(k, t8), p31));
    assert(same(p26 + written(k, t9), p31));
    let p32 = p31 + "]"@;
    assert(same(p24 + written(k, t10), p32));
    let p33 = p32 + ")"@;
    assert(same(p22 + written(k, t11), p33));
    let p34 = p33 + ", "@;
    lemma_add4(p34, "float"@, "("@, written(k, t15), ")"@);
    let p35 = p34 + "float"@;
    let p36 = p35 + "("@;
    lemma_add4(p36, written(k, t1), "["@, written(k, t14), "]"@);
    let p37 = p36 + nb;
    let p38 = p37 + "["@;
    lemma_add3(p38, written(k, t12), " + "@, written(k, t13));
    lemma_add3(p38, "("@, written(k, tb), ")"@);
    let p39 = p38 + "("@;
    let p40 = p39 + wb;
    let p41 = p40 + ")"@;
    assert(same(p38 + written(k, t12), p41));
    let p42 = p41 + " + "@;
    let p43 = p42 + "2u"@;
    assert(same(p42 + written(k, t13), p43));
    assert(same(p38 + written(k, t14), p43));
    let p44 = p43 + "]"@;
    assert(same(p36 + written(k, t15), p44));
    let p45 = p44 + ")"@;
    assert(same(p34 + written(k, t16), p45));
    let p46 = p45 + ", "@;
    lemma_add4(p46, "float"@, "("@, written(k, t20), ")"@);
    let p47 = p46 + "float"@;
    let p48 = p47 + "("@;
    lemma_add4(p48, written(k, t1), "["@, written(k, t19), "]"@);
    let p49 = p48 + nb;
    let p50 = p49 + "["@;
    lemma_add3(p50, written(k, t17), " + "@, written(k, t18));
    lemma_add3(p50, "("@, written(k, tb), ")"@);
    let p51 = p50 + "("@;
    let p52 = p51 + wb;
    let p53 = p52 + ")"@;
    assert(same(p50 + written(k, t17), p53));
    let p54 = p53 + " + "@;
    let p55 = p54 + "3u"@;
    assert(same(p54 + written(k, t18), p55));
    assert(same(p50 + written(k, t19), p55));
    let p56 = p55 + "]"@;
    assert(same(p48 + written(k, t20), p56));
    let p57 = p56 + ")"@;
    assert(same(p46 + written(k, t21), p57));
    let p58 = p57 + ")"@;
    assert(same(p10 + written(k, t22), p58));
    let p59 = p58 + ")"@;
    assert(same(written(k, t23), p59));
    assert(same(o20, p59));
}

proof fn lemma_device_four_q40<V>(sc: Scene<V>, a: u32, ta: Term, i: int, b: u32, tb: Term, j: int) -> (t: Term)
    requires
        (sc.k.kind)(a) == DType::Q40,
        (sc.k.kind)(b) == DType::F16,
        0 <= j < 0x1_0000_0000 - 4,
        sc.is_index(ta, i),
        sc.is_index(tb, j),
    ensures
        t == device_four_q40(a, ta, b, tb),
        device_dot(
            4,
            DType::Q40,
            array_name(sc.k, Arr::Device(a)),
            written(sc.k, ta),
            array_name(sc.k, Arr::Device(b)),
            written(sc.k, tb),
        ) matches Some(s) && same(s, written(sc.k, t)),
        grammatical(t),
        looseness(t) <= 0,
        sc.eval(t) == Val::<V>::Float(sc.ar.dot(|n: int| sc.logical(a, i + n), |n: int| sc.logical(b, j + n), 4)),
{
    lemma_device_four_q40_text(sc.k, a, ta, b, tb);
    let t0 = Term::Word(Word::Array(Arr::Device(a)));
    let t1 = Term::Word(Word::Array(Arr::Device(b)));
    let t2 = Term::Brackets(Box::new(ta));
    let t3 = Term::Call2(Fun::LoadFour(DType::Q40), Box::new(t0), Box::new(t2));
    let t4 = Term::Brackets(Box::new(tb));
    let t5 = Term::Element(Box::new(t1), Box::new(t4));
    let t6 = Term::Call1(Fun::ToFloat, Box::new(t5));
    let t7 = Term::Brackets(Box::new(tb));
    let t8 = Term::Word(Word::Count(1));
    let t9 = Term::Infix(Sign::Plus, Box::new(t7), Box::new(t8));
    let t10 = Term::Element(Box::new(t1), Box::new(t9));
    let t11 = Term::Call1(Fun::ToFloat, Box::new(t10));
    let t12 = Term::Brackets(Box::new(tb));
    let t13 = Term::Word(Word::Count(2));
    let t14 = Term::Infix(Sign::Plus, Box::new(t12), Box::new(t13));
    let t15 = Term::Element(Box::new(t1), Box::new(t14));
    let t16 = Term::Call1(Fun::ToFloat, Box::new(t15));
    let t17 = Term::Brackets(Box::new(tb));
    let t18 = Term::Word(Word::Count(3));
    let t19 = Term::Infix(Sign::Plus, Box::new(t17), Box::new(t18));
    let t20 = Term::Element(Box::new(t1), Box::new(t19));
    let t21 = Term::Call1(Fun::ToFloat, Box::new(t20));
    let t22 = Term::Call4(Fun::Float4, Box::new(t6), Box::new(t11), Box::new(t16), Box::new(t21));
    let t23 = Term::Call2(Fun::Dot, Box::new(t3), Box::new(t22));
    assert(grammatical(t0));
    assert(sc.eval(t0) == Val::<V>::Pointer(Arr::Device(a), 0));
    assert(grammatical(t1));
    assert(sc.eval(t1) == Val::<V>::Pointer(Arr::Device(b), 0));
    assert(grammatical(t2));
    assert(sc.eval(t2) == sc.eval(ta));
    assert(grammatical(t3));
    assert(sc.eval(t3) == sc.call2(Fun::LoadFour(DType::Q40), sc.eval(t0), sc.eval(t2)));
    assert(grammatical(t4));
    assert(sc.eval(t4) == sc.eval(tb));
    assert(grammatical(t5));
    assert(sc.eval(t5) == sc.element(Arr::Device(b), 0 + sc.eval(t4)->Uint_0));
    assert(grammatical(t6));
    assert(sc.eval(t6) == sc.call1(Fun::ToFloat, sc.eval(t5)));
    assert(grammatical(t7));
    assert(sc.eval(t7) == sc.eval(tb));
    assert(grammatical(t8));
    assert(grammatical(t9));
    assert(sc.eval(t9) == sc.infix(Sign::Plus, sc.eval(t7), sc.eval(t8)));
    assert(grammatical(t10));
    assert(sc.eval(t10) == sc.element(Arr::Device(b), 0 + sc.eval(t9)->Uint_0));
    assert(grammatical(t11));
    assert(sc.eval(t11) == sc.call1(Fun::ToFloat, sc.eval(t10)));
    assert(grammatical(t12));
    assert(sc.eval(t12) == sc.eval(tb));
    assert(grammatical(t13));
    assert(grammatical(t14));
    assert(sc.eval(t14) == sc.infix(Sign::Plus, sc.eval(t12), sc.eval(t13)));
    assert(grammatical(t15));
    assert(sc.eval(t15) == sc.element(Arr::Device(b), 0 + sc.eval(t14)->Uint_0));
    assert(grammatical(t16));
    assert(sc.eval(t16) == sc.call1(Fun::ToFloat, sc.eval(t15)));
    assert(grammatical(t17));
    assert(sc.eval(t17) == sc.eval(tb));
    assert(grammatical(t18));
    assert(grammatical(t19));
    assert(sc.eval(t19) == sc.infix(Sign::Plus, sc.eval(t17), sc.eval(t18)));
    assert(grammatical(t20));
    assert(sc.eval(t20) == sc.element(Arr::Device(b), 0 + sc.eval(t19)->Uint_0));
    assert(grammatical(t21));
    assert(sc.eval(t21) == sc.call1(Fun::ToFloat, sc.eval(t20)));
    assert(grammatical(t22));
    assert(sc.eval(t22) == sc.call4(Fun::Float4, sc.eval(t6), sc.eval(t11), sc.eval(t16), sc.eval(t21)));
    assert(grammatical(t23));
    assert(sc.eval(t23) == sc.call2(Fun::Dot, sc.eval(t3), sc.eval(t22)));
    let (p, q) = (|n: int| sc.logical(a, i + n), |n: int| sc.logical(b, j + n));
    reveal_with_fuel(Arith::dot, 3);
    assert(sc.eval(t3) is Floats && sc.eval(t22) is Floats);
    let (x, y) = (sc.eval(t3)->Floats_0, sc.eval(t22)->Floats_0);
    assert(x.len() == 4 && y.len() == 4);
    assert(x[0] == p(0) && y[0] == q(0));
    assert(x[1] == p(1) && y[1] == q(1));
    assert(x[2] == p(2) && y[2] == q(2));
    assert(x[3] == p(3) && y[3] == q(3));
    lemma_dot_same(sc.ar, |n: int| x[n], p, |n: int| y[n], q, 4);
    t23
}

/// The product of 32 elements of type Q4K with those of another buffer.
pub open spec fn device_32(a: u32, ta: Term, b: u32, tb: Term) -> Term {
    Term::Call4(Fun::Dot32(false), Box::new(Term::Word(Word::Array(Arr::Device(a)))), Box::new(Term::Brackets(Box::new(ta))), Box::new(Term::Word(Word::Array(Arr::Device(b)))), Box::new(Term::Brackets(Box::new(tb))))
}

proof fn lemma_device_32_literals()
    ensures
        same("ksearch_dot_q4k32_dev("@, "ksearch_dot_q4k32_dev"@ + "("@),
        same(", ("@, ", "@ + "("@),
        same("), "@, ")"@ + ", "@),
        same(", ("@, ", "@ + "("@),
        same("))"@, ")"@ + ")"@),
{
    reveal_strlit("(");
    reveal_strlit(")");
    reveal_strlit("))");
    reveal_strlit("), ");
    reveal_strlit(", ");
    reveal_strlit(", (");
    reveal_strlit("ksearch_dot_q4k32_dev");
    reveal_strlit("ksearch_dot_q4k32_dev(");
    assert("ksearch_dot_q4k32_dev("@ =~= "ksearch_dot_q4k32_dev"@ + "("@);
    assert(", ("@ =~= ", "@ + "("@);
    assert("), "@ =~= ")"@ + ", "@);
    assert(", ("@ =~= ", "@ + "("@);
    assert("))"@ =~= ")"@ + ")"@);
}

proof fn lemma_device_32_text(k: Params, a: u32, ta: Term, b: u32, tb: Term)
    ensures
        device_dot(
            32,
            DType::Q4K,
            array_name(k, Arr::Device(a)),
            written(k, ta),
            array_name(k, Arr::Device(b)),
            written(k, tb),
        ) matches Some(s) && same(s, written(k, device_32(a, ta, b, tb))),
{
    lemma_cat();
    lemma_device_32_literals();
    let t0 = Term::Word(Word::Array(Arr::Device(a)));
    let t1 = Term::Word(Word::Array(Arr::Device(b)));
    let t2 = Term::Brackets(Box::new(ta));
    let t3 = Term::Brackets(Box::new(tb));
    let t4 = Term::Call4(Fun::Dot32(false), Box::new(t0), Box::new(t2), Box::new(t1), Box::new(t3));
    let na = array_name(k, Arr::Device(a));
    let nb = array_name(k, Arr::Device(b));
    let (wa, wb) = (written(k, ta), written(k, tb));
    assert(same(written(k, t0), na));
    assert(same(written(k, t1), nb));
    assert(same(written(k, t2), "("@ + written(k, ta) + ")"@));
    assert(same(written(k, t3), "("@ + written(k, tb) + ")"@));
    assert(same(written(k, t4), "ksearch_dot_q4k32_dev"@ + "("@ + written(k, t0) + ", "@ + written(k, t2) + ", "@ + written(k, t1) + ", "@ + written(k, t3) + ")"@));
    let text = device_dot(32, DType::Q4K, na, wa, nb, wb)->0;
    let flat = "ksearch_dot_q4k32_dev"@ + "("@ + na + ", "@ + "("@ + wa + ")"@ + ", "@ + nb + ", "@ + "("@ + wb + ")"@ + ")"@;
    assert(same(text, flat));
    assert(same(written(k, t4), flat));
}

proof fn lemma_device_32<V>(sc: Scene<V>, a: u32, ta: Term, i: int, b: u32, tb: Term, j: int) -> (t: Term)
    requires
        (sc.k.kind)(a) == DType::Q4K,
        (sc.k.kind)(b) == DType::F16,
        sc.is_index(ta, i),
        sc.is_index(tb, j),
    ensures
        t == device_32(a, ta, b, tb),
        device_dot(
            32,
            DType::Q4K,
            array_name(sc.k, Arr::Device(a)),
            written(sc.k, ta),
            array_name(sc.k, Arr::Device(b)),
            written(sc.k, tb),
        ) matches Some(s) && same(s, written(sc.k, t)),
        grammatical(t),
        looseness(t) <= 0,
        sc.eval(t) == Val::<V>::Float(sc.ar.dot(|n: int| sc.logical(a, i + n), |n: int| sc.logical(b, j + n), 32)),
{
    lemma_device_32_text(sc.k, a, ta, b, tb);
    let t0 = Term::Word(Word::Array(Arr::Device(a)));
    let t1 = Term::Word(Word::Array(Arr::Device(b)));
    let t2 = Term::Brackets(Box::new(ta));
    let t3 = Term::Brackets(Box::new(tb));
    let t4 = Term::Call4(Fun::Dot32(false), Box::new(t0), Box::new(t2), Box::new(t1), Box::new(t3));
    assert(grammatical(t0));
    assert(sc.eval(t0) == Val::<V>::Pointer(Arr::Device(a), 0));
    assert(grammatical(t1));
    assert(sc.eval(t1) == Val::<V>::Pointer(Arr::Device(b), 0));
    assert(grammatical(t2));
    assert(sc.eval(t2) == sc.eval(ta));
    assert(grammatical(t3));
    assert(sc.eval(t3) == sc.eval(tb));
    assert(grammatical(t4));
    assert(sc.eval(t4) == sc.call4(Fun::Dot32(false), sc.eval(t0), sc.eval(t2), sc.eval(t1), sc.eval(t3)));
    let (p, q) = (|n: int| sc.logical(a, i + n), |n: int| sc.logical(b, j + n));
    reveal_with_fuel(Arith::dot, 3);
    lemma_dot_same(sc.ar, |d: int| sc.logical(a, 0 + i + d), p, |d: int| sc.logical(b, 0 + j + d), q, 32);
    t4
}

/// The product of 256 elements of type Q4K with those of another buffer.
pub open spec fn device_256(a: u32, ta: Term, b: u32, tb: Term) -> Term {
    Term::Call4(Fun::Dot256(false), Box::new(Term::Word(Word::Array(Arr::Device(a)))), Box::new(Term::Brackets(Box::new(ta))), Box::new(Term::Word(Word::Array(Arr::Device(b)))), Box::new(Term::Brackets(Box::new(tb))))
}

proof fn lemma_device_256_literals()
    ensures
        same("ksearch_dot_q4k256_dev("@, "ksearch_dot_q4k256_dev"@ + "("@),
        same(", ("@, ", "@ + "("@),
        same("), "@, ")"@ + ", "@),
        same(", ("@, ", "@ + "("@),
        same("))"@, ")"@ + ")"@),
{
    reveal_strlit("(");
    reveal_strlit(")");
    reveal_strlit("))");
    reveal_strlit("), ");
    reveal_strlit(", ");
    reveal_strlit(", (");
    reveal_strlit("ksearch_dot_q4k256_dev");
    reveal_strlit("ksearch_dot_q4k256_dev(");
    assert("ksearch_dot_q4k256_dev("@ =~= "ksearch_dot_q4k256_dev"@ + "("@);
    assert(", ("@ =~= ", "@ + "("@);
    assert("), "@ =~= ")"@ + ", "@);
    assert(", ("@ =~= ", "@ + "("@);
    assert("))"@ =~= ")"@ + ")"@);
}

proof fn lemma_device_256_text(k: Params, a: u32, ta: Term, b: u32, tb: Term)
    ensures
        device_dot(
            256,
            DType::Q4K,
            array_name(k, Arr::Device(a)),
            written(k, ta),
            array_name(k, Arr::Device(b)),
            written(k, tb),
        ) matches Some(s) && same(s, written(k, device_256(a, ta, b, tb))),
{
    lemma_cat();
    lemma_device_256_literals();
    let t0 = Term::Word(Word::Array(Arr::Device(a)));
    let t1 = Term::Word(Word::Array(Arr::Device(b)));
    let t2 = Term::Brackets(Box::new(ta));
    let t3 = Term::Brackets(Box::new(tb));
    let t4 = Term::Call4(Fun::Dot256(false), Box::new(t0), Box::new(t2), Box::new(t1), Box::new(t3));
    let na = array_name(k, Arr::Device(a));
    let nb = array_name(k, Arr::Device(b));
    let (wa, wb) = (written(k, ta), written(k, tb));
    assert(same(written(k, t0), na));
    assert(same(written(k, t1), nb));
    assert(same(written(k, t2), "("@ + written(k, ta) + ")"@));
    assert(same(written(k, t3), "("@ + written(k, tb) + ")"@));
    assert(same(written(k, t4), "ksearch_dot_q4k256_dev"@ + "("@ + written(k, t0) + ", "@ + written(k, t2) + ", "@ + written(k, t1) + ", "@ + written(k, t3) + ")"@));
    let text = device_dot(256, DType::Q4K, na, wa, nb, wb)->0;
    let flat = "ksearch_dot_q4k256_dev"@ + "("@ + na + ", "@ + "("@ + wa + ")"@ + ", "@ + nb + ", "@ + "("@ + wb + ")"@ + ")"@;
    assert(same(text, flat));
    assert(same(written(k, t4), flat));
}

proof fn lemma_device_256<V>(sc: Scene<V>, a: u32, ta: Term, i: int, b: u32, tb: Term, j: int) -> (t: Term)
    requires
        (sc.k.kind)(a) == DType::Q4K,
        (sc.k.kind)(b) == DType::F16,
        sc.is_index(ta, i),
        sc.is_index(tb, j),
    ensures
        t == device_256(a, ta, b, tb),
        device_dot(
            256,
            DType::Q4K,
            array_name(sc.k, Arr::Device(a)),
            written(sc.k, ta),
            array_name(sc.k, Arr::Device(b)),
            written(sc.k, tb),
        ) matches Some(s) && same(s, written(sc.k, t)),
        grammatical(t),
        looseness(t) <= 0,
        sc.eval(t) == Val::<V>::Float(sc.ar.dot(|n: int| sc.logical(a, i + n), |n: int| sc.logical(b, j + n), 256)),
{
    lemma_device_256_text(sc.k, a, ta, b, tb);
    let t0 = Term::Word(Word::Array(Arr::Device(a)));
    let t1 = Term::Word(Word::Array(Arr::Device(b)));
    let t2 = Term::Brackets(Box::new(ta));
    let t3 = Term::Brackets(Box::new(tb));
    let t4 = Term::Call4(Fun::Dot256(false), Box::new(t0), Box::new(t2), Box::new(t1), Box::new(t3));
    assert(grammatical(t0));
    assert(sc.eval(t0) == Val::<V>::Pointer(Arr::Device(a), 0));
    assert(grammatical(t1));
    assert(sc.eval(t1) == Val::<V>::Pointer(Arr::Device(b), 0));
    assert(grammatical(t2));
    assert(sc.eval(t2) == sc.eval(ta));
    assert(grammatical(t3));
    assert(sc.eval(t3) == sc.eval(tb));
    assert(grammatical(t4));
    assert(sc.eval(t4) == sc.call4(Fun::Dot256(false), sc.eval(t0), sc.eval(t2), sc.eval(t1), sc.eval(t3)));
    let (p, q) = (|n: int| sc.logical(a, i + n), |n: int| sc.logical(b, j + n));
    reveal_with_fuel(Arith::dot, 3);
    lemma_dot_same(sc.ar, |d: int| sc.logical(a, 0 + i + d), p, |d: int| sc.logical(b, 0 + j + d), q, 256);
    t4
}

/// The product of 4 elements of type F16 with those of another buffer.
pub open spec fn device_four_f16(a: u32, ta: Term, b: u32, tb: Term) -> Term {
    Term::Call2(Fun::Dot, Box::new(Term::Call1(Fun::ToFloat4, Box::new(Term::Vector { group: false, half: true, width: 4, at: Box::new(Term::Brackets(Box::new(Term::Infix(Sign::Plus, Box::new(Term::Word(Word::Array(Arr::Device(a)))), Box::new(Term::Brackets(Box::new(ta))))))) }))), Box::new(Term::Call1(Fun::ToFloat4, Box::new(Term::Vector { group: false, half: true, width: 4, at: Box::new(Term::Brackets(Box::new(Term::Infix(Sign::Plus, Box::new(Term::Word(Word::Array(Arr::Device(b)))), Box::new(Term::Brackets(Box::new(tb))))))) }))))
}

proof fn lemma_device_four_f16_literals()
    ensures
        same("dot(float4(*(device const half4*)("@, "dot"@ + "("@ + "float4"@ + "("@ + "*(device const half4*)"@ + "("@),
        same(" + ("@, " + "@ + "("@),
        same("))), float4(*(device const half4*)("@, ")"@ + ")"@ + ")"@ + ", "@ + "float4"@ + "("@ + "*(device const half4*)"@ + "("@),
        same(" + ("@, " + "@ + "("@),
        same("))))"@, ")"@ + ")"@ + ")"@ + ")"@),
{
    reveal_strlit(" + ");
    reveal_strlit(" + (");
    reveal_strlit("(");
    reveal_strlit(")");
    reveal_strlit("))))");
    reveal_strlit("))), float4(*(device const half4*)(");
    reveal_strlit("*(device const half4*)");
    reveal_strlit(", ");
    reveal_strlit("dot");
    reveal_strlit("dot(float4(*(device const half4*)(");
    reveal_strlit("float4");
    assert("dot(float4(*(device const half4*)("@ =~= "dot"@ + "("@ + "float4"@ + "("@ + "*(device const half4*)"@ + "("@);
    assert(" + ("@ =~= " + "@ + "("@);
    assert("))), float4(*(device const half4*)("@ =~= ")"@ + ")"@ + ")"@ + ", "@ + "float4"@ + "("@ + "*(device const half4*)"@ + "("@);
    assert(" + ("@ =~= " + "@ + "("@);
    assert("))))"@ =~= ")"@ + ")"@ + ")"@ + ")"@);
}

proof fn lemma_device_four_f16_text(k: Params, a: u32, ta: Term, b: u32, tb: Term)
    ensures
        device_dot(
            4,
            DType::F16,
            array_name(k, Arr::Device(a)),
            written(k, ta),
            array_name(k, Arr::Device(b)),
            written(k, tb),
        ) matches Some(s) && same(s, written(k, device_four_f16(a, ta, b, tb))),
{
    lemma_device_four_f16_literals();
    let t0 = Term::Word(Word::Array(Arr::Device(a)));
    let t1 = Term::Word(Word::Array(Arr::Device(b)));
    let t2 = Term::Brackets(Box::new(ta));
    let t3 = Term::Infix(Sign::Plus, Box::new(t0), Box::new(t2));
    let t4 = Term::Brackets(Box::new(t3));
    let t5 = Term::Vector { group: false, half: true, width: 4, at: Box::new(t4) };
    let t6 = Term::Call1(Fun::ToFloat4, Box::new(t5));
    let t7 = Term::Brackets(Box::new(tb));
    let t8 = Term::Infix(Sign::Plus, Box::new(t1), Box::new(t7));
    let t9 = Term::Brackets(Box::new(t8));
    let t10 = Term::Vector { group: false, half: true, width: 4, at: Box::new(t9) };
    let t11 = Term::Call1(Fun::ToFloat4, Box::new(t10));
    let t12 = Term::Call2(Fun::Dot, Box::new(t6), Box::new(t11));
    let na = array_name(k, Arr::Device(a));
    let nb = array_name(k, Arr::Device(b));
    let (wa, wb) = (written(k, ta), written(k, tb));
    assert(same(written(k, t0), na));
    assert(same(written(k, t1), nb));
    assert(same(written(k, t2), "("@ + written(k, ta) + ")"@));
    assert(same(written(k, t3), written(k, t0) + " + "@ + written(k, t2)));
    assert(same(written(k, t4), "("@ + written(k, t3) + ")"@));
    assert(same(written(k, t5), "*(device const half4*)"@ + written(k, t4)));
    assert(same(written(k, t6), "float4"@ + "("@ + written(k, t5) + ")"@));
    assert(same(written(k, t7), "("@ + written(k, tb) + ")"@));
    assert(same(written(k, t8), written(k, t1) + " + "@ + written(k, t7)));
    assert(same(written(k, t9), "("@ + written(k, t8) + ")"@));
    assert(same(written(k, t10), "*(device const half4*)"@ + written(k, t9)));
    assert(same(written(k, t11), "float4"@ + "("@ + written(k, t10) + ")"@));
    assert(same(written(k, t12), "dot"@ + "("@ + written(k, t6) + ", "@ + written(k, t11) + ")"@));
    let text = device_dot(4, DType::F16, na, wa, nb, wb)->0;
    let o0 = "dot"@ + "("@ + "float4"@ + "("@ + "*(device const half4*)"@ + "("@;
    let o1 = o0 + na;
    lemma_add2(o1, " + "@, "("@);
    let o2 = o1 + " + "@ + "("@;
    let o3 = o2 + wa;
    lemma_add8(o3, ")"@, ")"@, ")"@, ", "@, "float4"@, "("@, "*(device const half4*)"@, "("@);
    let o4 = o3 + ")"@ + ")"@ + ")"@ + ", "@ + "float4"@ + "("@ + "*(device const half4*)"@ + "("@;
    let o5 = o4 + nb;
    lemma_add2(o5, " + "@, "("@);
    let o6 = o5 + " + "@ + "("@;
    let o7 = o6 + wb;
    lemma_add4(o7, ")"@, ")"@, ")"@, ")"@);
    let o8 = o7 + ")"@ + ")"@ + ")"@ + ")"@;
    assert(same(text, o8));
    let p0 = "dot"@;
    let p1 = p0 + "("@;
    lemma_add4(p1, "float4"@, "("@, written(k, t5), ")"@);
    let p2 = p1 + "float4"@;
    let p3 = p2 + "("@;
    lemma_add2(p3, "*(device const half4*)"@, written(k, t4));
    let p4 = p3 + "*(device const half4*)"@;
    lemma_add3(p4, "("@, written(k, t3), ")"@);
    let p5 = p4 + "("@;
    lemma_add3(p5, written(k, t0), " + "@, written(k, t2));
    let p6 = p5 + na;
    let p7 = p6 + " + "@;
    lemma_add3(p7, "("@, written(k, ta), ")"@);
    let p8 = p7 + "("@;
    let p9 = p8 + wa;
    let p10 = p9 + ")"@;
    assert(same(p7 + written(k, t2), p10));
    assert(same(p5 + written(k, t3), p10));
    let p11 = p10 + ")"@;
    assert(same(p4 + written(k, t4), p11));
    assert(same(p3 + written(k, t5), p11));
    let p12 = p11 + ")"@;
    assert(same(p1 + written(k, t6), p12));
    let p13 = p12 + ", "@;
    lemma_add4(p13, "float4"@, "("@, written(k, t10), ")"@);
    let p14 = p13 + "float4"@;
    let p15 = p14 + "("@;
    lemma_add2(p15, "*(device const half4*)"@, written(k, t9));
    let p16 = p15 + "*(device const half4*)"@;
    lemma_add3(p16, "("@, written(k, t8), ")"@);
    let p17 = p16 + "("@;
    lemma_add3(p17, written(k, t1), " + "@, written(k, t7));
    let p18 = p17 + nb;
    let p19 = p18 + " + "@;
    lemma_add3(p19, "("@, written(k, tb), ")"@);
    let p20 = p19 + "("@;
    let p21 = p20 + wb;
    let p22 = p21 + ")"@;
    assert(same(p19 + written(k, t7), p22));
    assert(same(p17 + written(k, t8), p22));
    let p23 = p22 + ")"@;
    assert(same(p16 + written(k, t9), p23));
    assert(same(p15 + written(k, t10), p23));
    let p24 = p23 + ")"@;
    assert(same(p13 + written(k, t11), p24));
    let p25 = p24 + ")"@;
    assert(same(written(k, t12), p25));
    assert(same(o8, p25));
}

proof fn lemma_device_four_f16<V>(sc: Scene<V>, a: u32, ta: Term, i: int, b: u32, tb: Term, j: int) -> (t: Term)
    requires
        (sc.k.kind)(a) == DType::F16,
        (sc.k.kind)(b) == DType::F16,
        sc.is_index(ta, i),
        sc.is_index(tb, j),
    ensures
        t == device_four_f16(a, ta, b, tb),
        device_dot(
            4,
            DType::F16,
            array_name(sc.k, Arr::Device(a)),
            written(sc.k, ta),
            array_name(sc.k, Arr::Device(b)),
            written(sc.k, tb),
        ) matches Some(s) && same(s, written(sc.k, t)),
        grammatical(t),
        looseness(t) <= 0,
        sc.eval(t) == Val::<V>::Float(sc.ar.dot(|n: int| sc.logical(a, i + n), |n: int| sc.logical(b, j + n), 4)),
{
    lemma_device_four_f16_text(sc.k, a, ta, b, tb);
    let t0 = Term::Word(Word::Array(Arr::Device(a)));
    let t1 = Term::Word(Word::Array(Arr::Device(b)));
    let t2 = Term::Brackets(Box::new(ta));
    let t3 = Term::Infix(Sign::Plus, Box::new(t0), Box::new(t2));
    let t4 = Term::Brackets(Box::new(t3));
    let t5 = Term::Vector { group: false, half: true, width: 4, at: Box::new(t4) };
    let t6 = Term::Call1(Fun::ToFloat4, Box::new(t5));
    let t7 = Term::Brackets(Box::new(tb));
    let t8 = Term::Infix(Sign::Plus, Box::new(t1), Box::new(t7));
    let t9 = Term::Brackets(Box::new(t8));
    let t10 = Term::Vector { group: false, half: true, width: 4, at: Box::new(t9) };
    let t11 = Term::Call1(Fun::ToFloat4, Box::new(t10));
    let t12 = Term::Call2(Fun::Dot, Box::new(t6), Box::new(t11));
    assert(grammatical(t0));
    assert(sc.eval(t0) == Val::<V>::Pointer(Arr::Device(a), 0));
    assert(grammatical(t1));
    assert(sc.eval(t1) == Val::<V>::Pointer(Arr::Device(b), 0));
    assert(grammatical(t2));
    assert(sc.eval(t2) == sc.eval(ta));
    assert(grammatical(t3));
    assert(sc.eval(t3) == sc.infix(Sign::Plus, sc.eval(t0), sc.eval(t2)));
    assert(grammatical(t4));
    assert(sc.eval(t4) == sc.eval(t3));
    assert(grammatical(t5));
    assert(!(sc.eval(t5) is Nonsense));
    assert(grammatical(t6));
    assert(sc.eval(t6) == sc.call1(Fun::ToFloat4, sc.eval(t5)));
    assert(grammatical(t7));
    assert(sc.eval(t7) == sc.eval(tb));
    assert(grammatical(t8));
    assert(sc.eval(t8) == sc.infix(Sign::Plus, sc.eval(t1), sc.eval(t7)));
    assert(grammatical(t9));
    assert(sc.eval(t9) == sc.eval(t8));
    assert(grammatical(t10));
    assert(!(sc.eval(t10) is Nonsense));
    assert(grammatical(t11));
    assert(sc.eval(t11) == sc.call1(Fun::ToFloat4, sc.eval(t10)));
    assert(grammatical(t12));
    assert(sc.eval(t12) == sc.call2(Fun::Dot, sc.eval(t6), sc.eval(t11)));
    let (p, q) = (|n: int| sc.logical(a, i + n), |n: int| sc.logical(b, j + n));
    reveal_with_fuel(Arith::dot, 3);
    assert(sc.eval(t6) is Floats && sc.eval(t11) is Floats);
    let (x, y) = (sc.eval(t6)->Floats_0, sc.eval(t11)->Floats_0);
    assert(x.len() == 4 && y.len() == 4);
    assert(x[0] == p(0) && y[0] == q(0));
    assert(x[1] == p(1) && y[1] == q(1));
    assert(x[2] == p(2) && y[2] == q(2));
    assert(x[3] == p(3) && y[3] == q(3));
    lemma_dot_same(sc.ar, |n: int| x[n], p, |n: int| y[n], q, 4);
    t12
}

/// The product of 2 elements of type F16 with those of another buffer.
pub open spec fn device_two_f16(a: u32, ta: Term, b: u32, tb: Term) -> Term {
    Term::Brackets(Box::new(Term::Infix(Sign::Plus, Box::new(Term::Infix(Sign::Times, Box::new(Term::Call1(Fun::ToFloat, Box::new(Term::Member(Box::new(Term::Brackets(Box::new(Term::Vector { group: false, half: true, width: 2, at: Box::new(Term::Brackets(Box::new(Term::Infix(Sign::Plus, Box::new(Term::Word(Word::Array(Arr::Device(a)))), Box::new(Term::Brackets(Box::new(ta))))))) }))), false)))), Box::new(Term::Call1(Fun::ToFloat, Box::new(Term::Member(Box::new(Term::Brackets(Box::new(Term::Vector { group: false, half: true, width: 2, at: Box::new(Term::Brackets(Box::new(Term::Infix(Sign::Plus, Box::new(Term::Word(Word::Array(Arr::Device(b)))), Box::new(Term::Brackets(Box::new(tb))))))) }))), false)))))), Box::new(Term::Infix(Sign::Times, Box::new(Term::Call1(Fun::ToFloat, Box::new(Term::Member(Box::new(Term::Brackets(Box::new(Term::Vector { group: false, half: true, width: 2, at: Box::new(Term::Brackets(Box::new(Term::Infix(Sign::Plus, Box::new(Term::Word(Word::Array(Arr::Device(a)))), Box::new(Term::Brackets(Box::new(ta))))))) }))), true)))), Box::new(Term::Call1(Fun::ToFloat, Box::new(Term::Member(Box::new(Term::Brackets(Box::new(Term::Vector { group: false, half: true, width: 2, at: Box::new(Term::Brackets(Box::new(Term::Infix(Sign::Plus, Box::new(Term::Word(Word::Array(Arr::Device(b)))), Box::new(Term::Brackets(Box::new(tb))))))) }))), true)))))))))
}

proof fn lemma_device_two_f16_literals()
    ensures
        same("(float((*(device const half2*)("@, "("@ + "float"@ + "("@ + "("@ + "*(device const half2*)"@ + "("@),
        same(" + ("@, " + "@ + "("@),
        same("))).x) * float((*(device const half2*)("@, ")"@ + ")"@ + ")"@ + ".x"@ + ")"@ + " * "@ + "float"@ + "("@ + "("@ + "*(device const half2*)"@ + "("@),
        same(" + ("@, " + "@ + "("@),
        same("))).x) + float((*(device const half2*)("@, ")"@ + ")"@ + ")"@ + ".x"@ + ")"@ + " + "@ + "float"@ + "("@ + "("@ + "*(device const half2*)"@ + "("@),
        same(" + ("@, " + "@ + "("@),
        same("))).y) * float((*(device const half2*)("@, ")"@ + ")"@ + ")"@ + ".y"@ + ")"@ + " * "@ + "float"@ + "("@ + "("@ + "*(device const half2*)"@ + "("@),
        same(" + ("@, " + "@ + "("@),
        same("))).y))"@, ")"@ + ")"@ + ")"@ + ".y"@ + ")"@ + ")"@),
{
    reveal_strlit(" * ");
    reveal_strlit(" + ");
    reveal_strlit(" + (");
    reveal_strlit("(");
    reveal_strlit("(float((*(device const half2*)(");
    reveal_strlit(")");
    reveal_strlit("))).x) * float((*(device const half2*)(");
    reveal_strlit("))).x) + float((*(device const half2*)(");
    reveal_strlit("))).y) * float((*(device const half2*)(");
    reveal_strlit("))).y))");
    reveal_strlit("*(device const half2*)");
    reveal_strlit(".x");
    reveal_strlit(".y");
    reveal_strlit("float");
    assert("(float((*(device const half2*)("@ =~= "("@ + "float"@ + "("@ + "("@ + "*(device const half2*)"@ + "("@);
    assert(" + ("@ =~= " + "@ + "("@);
    assert("))).x) * float((*(device const half2*)("@ =~= ")"@ + ")"@ + ")"@ + ".x"@ + ")"@ + " * "@ + "float"@ + "("@ + "("@ + "*(device const half2*)"@ + "("@);
    assert(" + ("@ =~= " + "@ + "("@);
    assert("))).x) + float((*(device const half2*)("@ =~= ")"@ + ")"@ + ")"@ + ".x"@ + ")"@ + " + "@ + "float"@ + "("@ + "("@ + "*(device const half2*)"@ + "("@);
    assert(" + ("@ =~= " + "@ + "("@);
    assert("))).y) * float((*(device const half2*)("@ =~= ")"@ + ")"@ + ")"@ + ".y"@ + ")"@ + " * "@ + "float"@ + "("@ + "("@ + "*(device const half2*)"@ + "("@);
    assert(" + ("@ =~= " + "@ + "("@);
    assert("))).y))"@ =~= ")"@ + ")"@ + ")"@ + ".y"@ + ")"@ + ")"@);
}

proof fn lemma_device_two_f16_text(k: Params, a: u32, ta: Term, b: u32, tb: Term)
    ensures
        device_dot(
            2,
            DType::F16,
            array_name(k, Arr::Device(a)),
            written(k, ta),
            array_name(k, Arr::Device(b)),
            written(k, tb),
        ) matches Some(s) && same(s, written(k, device_two_f16(a, ta, b, tb))),
{
    lemma_device_two_f16_literals();
    let t0 = Term::Word(Word::Array(Arr::Device(a)));
    let t1 = Term::Word(Word::Array(Arr::Device(b)));
    let t2 = Term::Brackets(Box::new(ta));
    let t3 = Term::Infix(Sign::Plus, Box::new(t0), Box::new(t2));
    let t4 = Term::Brackets(Box::new(t3));
    let t5 = Term::Vector { group: false, half: true, width: 2, at: Box::new(t4) };
    let t6 = Term::Brackets(Box::new(t5));
    let t7 = Term::Member(Box::new(t6), false);
    let t8 = Term::Call1(Fun::ToFloat, Box::new(t7));
    let t9 = Term::Brackets(Box::new(tb));
    let t10 = Term::Infix(Sign::Plus, Box::new(t1), Box::new(t9));
    let t11 = Term::Brackets(Box::new(t10));
    let t12 = Term::Vector { group: false, half: true, width: 2, at: Box::new(t11) };
    let t13 = Term::Brackets(Box::new(t12));
    let t14 = Term::Member(Box::new(t13), false);
    let t15 = Term::Call1(Fun::ToFloat, Box::new(t14));
    let t16 = Term::Infix(Sign::Times, Box::new(t8), Box::new(t15));
    let t17 = Term::Brackets(Box::new(ta));
    let t18 = Term::Infix(Sign::Plus, Box::new(t0), Box::new(t17));
    let t19 = Term::Brackets(Box::new(t18));
    let t20 = Term::Vector { group: false, half: true, width: 2, at: Box::new(t19) };
    let t21 = Term::Brackets(Box::new(t20));
    let t22 = Term::Member(Box::new(t21), true);
    let t23 = Term::Call1(Fun::ToFloat, Box::new(t22));
    let t24 = Term::Brackets(Box::new(tb));
    let t25 = Term::Infix(Sign::Plus, Box::new(t1), Box::new(t24));
    let t26 = Term::Brackets(Box::new(t25));
    let t27 = Term::Vector { group: false, half: true, width: 2, at: Box::new(t26) };
    let t28 = Term::Brackets(Box::new(t27));
    let t29 = Term::Member(Box::new(t28), true);
    let t30 = Term::Call1(Fun::ToFloat, Box::new(t29));
    let t31 = Term::Infix(Sign::Times, Box::new(t23), Box::new(t30));
    let t32 = Term::Infix(Sign::Plus, Box::new(t16), Box::new(t31));
    let t33 = Term::Brackets(Box::new(t32));
    let na = array_name(k, Arr::Device(a));
    let nb = array_name(k, Arr::Device(b));
    let (wa, wb) = (written(k, ta), written(k, tb));
    assert(same(written(k, t0), na));
    assert(same(written(k, t1), nb));
    assert(same(written(k, t2), "("@ + written(k, ta) + ")"@));
    assert(same(written(k, t3), written(k, t0) + " + "@ + written(k, t2)));
    assert(same(written(k, t4), "("@ + written(k, t3) + ")"@));
    assert(same(written(k, t5), "*(device const half2*)"@ + written(k, t4)));
    assert(same(written(k, t6), "("@ + written(k, t5) + ")"@));
    assert(same(written(k, t7), written(k, t6) + ".x"@));
    assert(same(written(k, t8), "float"@ + "("@ + written(k, t7) + ")"@));
    assert(same(written(k, t9), "("@ + written(k, tb) + ")"@));
    assert(same(written(k, t10), written(k, t1) + " + "@ + written(k, t9)));
    assert(same(written(k, t11), "("@ + written(k, t10) + ")"@));
    assert(same(written(k, t12), "*(device const half2*)"@ + written(k, t11)));
    assert(same(written(k, t13), "("@ + written(k, t12) + ")"@));
    assert(same(written(k, t14), written(k, t13) + ".x"@));
    assert(same(written(k, t15), "float"@ + "("@ + written(k, t14) + ")"@));
    assert(same(written(k, t16), written(k, t8) + " * "@ + written(k, t15)));
    assert(same(written(k, t17), "("@ + written(k, ta) + ")"@));
    assert(same(written(k, t18), written(k, t0) + " + "@ + written(k, t17)));
    assert(same(written(k, t19), "("@ + written(k, t18) + ")"@));
    assert(same(written(k, t20), "*(device const half2*)"@ + written(k, t19)));
    assert(same(written(k, t21), "("@ + written(k, t20) + ")"@));
    assert(same(written(k, t22), written(k, t21) + ".y"@));
    assert(same(written(k, t23), "float"@ + "("@ + written(k, t22) + ")"@));
    assert(same(written(k, t24), "("@ + written(k, tb) + ")"@));
    assert(same(written(k, t25), written(k, t1) + " + "@ + written(k, t24)));
    assert(same(written(k, t26), "("@ + written(k, t25) + ")"@));
    assert(same(written(k, t27), "*(device const half2*)"@ + written(k, t26)));
    assert(same(written(k, t28), "("@ + written(k, t27) + ")"@));
    assert(same(written(k, t29), written(k, t28) + ".y"@));
    assert(same(written(k, t30), "float"@ + "("@ + written(k, t29) + ")"@));
    assert(same(written(k, t31), written(k, t23) + " * "@ + written(k, t30)));
    assert(same(written(k, t32), written(k, t16) + " + "@ + written(k, t31)));
    assert(same(written(k, t33), "("@ + written(k, t32) + ")"@));
    let text = device_dot(2, DType::F16, na, wa, nb, wb)->0;
    let o0 = "("@ + "float"@ + "("@ + "("@ + "*(device const half2*)"@ + "("@;
    let o1 = o0 + na;
    lemma_add2(o1, " + "@, "("@);
    let o2 = o1 + " + "@ + "("@;
    let o3 = o2 + wa;
    lemma_add11(o3, ")"@, ")"@, ")"@, ".x"@, ")"@, " * "@, "float"@, "("@, "("@, "*(device const half2*)"@, "("@);
    let o4 = o3 + ")"@ + ")"@ + ")"@ + ".x"@ + ")"@ + " * "@ + "float"@ + "("@ + "("@ + "*(device const half2*)"@ + "("@;
    let o5 = o4 + nb;
    lemma_add2(o5, " + "@, "("@);
    let o6 = o5 + " + "@ + "("@;
    let o7 = o6 + wb;
    lemma_add11(o7, ")"@, ")"@, ")"@, ".x"@, ")"@, " + "@, "float"@, "("@, "("@, "*(device const half2*)"@, "("@);
    let o8 = o7 + ")"@ + ")"@ + ")"@ + ".x"@ + ")"@ + " + "@ + "float"@ + "("@ + "("@ + "*(device const half2*)"@ + "("@;
    let o9 = o8 + na;
    lemma_add2(o9, " + "@, "("@);
    let o10 = o9 + " + "@ + "("@;
    let o11 = o10 + wa;
    lemma_add11(o11, ")"@, ")"@, ")"@, ".y"@, ")"@, " * "@, "float"@, "("@, "("@, "*(device const half2*)"@, "("@);
    let o12 = o11 + ")"@ + ")"@ + ")"@ + ".y"@ + ")"@ + " * "@ + "float"@ + "("@ + "("@ + "*(device const half2*)"@ + "("@;
    let o13 = o12 + nb;
    lemma_add2(o13, " + "@, "("@);
    let o14 = o13 + " + "@ + "("@;
    let o15 = o14 + wb;
    lemma_add6(o15, ")"@, ")"@, ")"@, ".y"@, ")"@, ")"@);
    let o16 = o15 + ")"@ + ")"@ + ")"@ + ".y"@ + ")"@ + ")"@;
    assert(same(text, o16));
    let p0 = "("@;
    lemma_add3(p0, written(k, t16), " + "@, written(k, t31));
    lemma_add3(p0, written(k, t8), " * "@, written(k, t15));
    lemma_add4(p0, "float"@, "("@, written(k, t7), ")"@);
    let p1 = p0 + "float"@;
    let p2 = p1 + "("@;
    lemma_add2(p2, written(k, t6), ".x"@);
    lemma_add3(p2, "("@, written(k, t5), ")"@);
    let p3 = p2 + "("@;
    lemma_add2(p3, "*(device const half2*)"@, written(k, t4));
    let p4 = p3 + "*(device const half2*)"@;
    lemma_add3(p4, "("@, written(k, t3), ")"@);
    let p5 = p4 + "("@;
    lemma_add3(p5, written(k, t0), " + "@, written(k, t2));
    let p6 = p5 + na;
    let p7 = p6 + " + "@;
    lemma_add3(p7, "("@, written(k, ta), ")"@);
    let p8 = p7 + "("@;
    let p9 = p8 + wa;
    let p10 = p9 + ")"@;
    assert(same(p7 + written(k, t2), p10));
    assert(same(p5 + written(k, t3), p10));
    let p11 = p10 + ")"@;
    assert(same(p4 + written(k, t4), p11));
    assert(same(p3 + written(k, t5), p11));
    let p12 = p11 + ")"@;
    assert(same(p2 + written(k, t6), p12));
    let p13 = p12 + ".x"@;
    assert(same(p2 + written(k, t7), p13));
    let p14 = p13 + ")"@;
    assert(same(p0 + written(k, t8), p14));
    let p15 = p14 + " * "@;
    lemma_add4(p15, "float"@, "("@, written(k, t14), ")"@);
    let p16 = p15 + "float"@;
    let p17 = p16 + "("@;
    lemma_add2(p17, written(k, t13), ".x"@);
    lemma_add3(p17, "("@, written(k, t12), ")"@);
    let p18 = p17 + "("@;
    lemma_add2(p18, "*(device const half2*)"@, written(k, t11));
    let p19 = p18 + "*(device const half2*)"@;
    lemma_add3(p19, "("@, written(k, t10), ")"@);
    let p20 = p19 + "("@;
    lemma_add3(p20, written(k, t1), " + "@, written(k, t9));
    let p21 = p20 + nb;
    let p22 = p21 + " + "@;
    lemma_add3(p22, "("@, written(k, tb), ")"@);
    let p23 = p22 + "("@;
    let p24 = p23 + wb;
    let p25 = p24 + ")"@;
    assert(same(p22 + written(k, t9), p25));
    assert(same(p20 + written(k, t10), p25));
    let p26 = p25 + ")"@;
    assert(same(p19 + written(k, t11), p26));
    assert(same(p18 + written(k, t12), p26));
    let p27 = p26 + ")"@;
    assert(same(p17 + written(k, t13), p27));
    let p28 = p27 + ".x"@;
    assert(same(p17 + written(k, t14), p28));
    let p29 = p28 + ")"@;
    assert(same(p15 + written(k, t15), p29));
    assert(same(p0 + written(k, t16), p29));
    let p30 = p29 + " + "@;
    lemma_add3(p30, written(k, t23), " * "@, written(k, t30));
    lemma_add4(p30, "float"@, "("@, written(k, t22), ")"@);
    let p31 = p30 + "float"@;
    let p32 = p31 + "("@;
    lemma_add2(p32, written(k, t21), ".y"@);
    lemma_add3(p32, "("@, written(k, t20), ")"@);
    let p33 = p32 + "("@;
    lemma_add2(p33, "*(device const half2*)"@, written(k, t19));
    let p34 = p33 + "*(device const half2*)"@;
    lemma_add3(p34, "("@, written(k, t18), ")"@);
    let p35 = p34 + "("@;
    lemma_add3(p35, written(k, t0), " + "@, written(k, t17));
    let p36 = p35 + na;
    let p37 = p36 + " + "@;
    lemma_add3(p37, "("@, written(k, ta), ")"@);
    let p38 = p37 + "("@;
    let p39 = p38 + wa;
    let p40 = p39 + ")"@;
    assert(same(p37 + written(k, t17), p40));
    assert(same(p35 + written(k, t18), p40));
    let p41 = p40 + ")"@;
    assert(same(p34 + written(k, t19), p41));
    assert(same(p33 + written(k, t20), p41));
    let p42 = p41 + ")"@;
    assert(same(p32 + written(k, t21), p42));
    let p43 = p42 + ".y"@;
    assert(same(p32 + written(k, t22), p43));
    let p44 = p43 + ")"@;
    assert(same(p30 + written(k, t23), p44));
    let p45 = p44 + " * "@;
    lemma_add4(p45, "float"@, "("@, written(k, t29), ")"@);
    let p46 = p45 + "float"@;
    let p47 = p46 + "("@;
    lemma_add2(p47, written(k, t28), ".y"@);
    lemma_add3(p47, "("@, written(k, t27), ")"@);
    let p48 = p47 + "("@;
    lemma_add2(p48, "*(device const half2*)"@, written(k, t26));
    let p49 = p48 + "*(device const half2*)"@;
    lemma_add3(p49, "("@, written(k, t25), ")"@);
    let p50 = p49 + "("@;
    lemma_add3(p50, written(k, t1), " + "@, written(k, t24));
    let p51 = p50 + nb;
    let p52 = p51 + " + "@;
    lemma_add3(p52, "("@, written(k, tb), ")"@);
    let p53 = p52 + "("@;
    let p54 = p53 + wb;
    let p55 = p54 + ")"@;
    assert(same(p52 + written(k, t24), p55));
    assert(same(p50 + written(k, t25), p55));
    let p56 = p55 + ")"@;
    assert(same(p49 + written(k, t26), p56));
    assert(same(p48 + written(k, t27), p56));
    let p57 = p56 + ")"@;
    assert(same(p47 + written(k, t28), p57));
    let p58 = p57 + ".y"@;
    assert(same(p47 + written(k, t29), p58));
    let p59 = p58 + ")"@;
    assert(same(p45 + written(k, t30), p59));
    assert(same(p30 + written(k, t31), p59));
    assert(same(p0 + written(k, t32), p59));
    let p60 = p59 + ")"@;
    assert(same(written(k, t33), p60));
    assert(same(o16, p60));
}

proof fn lemma_device_two_f16<V>(sc: Scene<V>, a: u32, ta: Term, i: int, b: u32, tb: Term, j: int) -> (t: Term)
    requires
        (sc.k.kind)(a) == DType::F16,
        (sc.k.kind)(b) == DType::F16,
        sc.is_index(ta, i),
        sc.is_index(tb, j),
    ensures
        t == device_two_f16(a, ta, b, tb),
        device_dot(
            2,
            DType::F16,
            array_name(sc.k, Arr::Device(a)),
            written(sc.k, ta),
            array_name(sc.k, Arr::Device(b)),
            written(sc.k, tb),
        ) matches Some(s) && same(s, written(sc.k, t)),
        grammatical(t),
        looseness(t) <= 0,
        sc.eval(t) == Val::<V>::Float(sc.ar.dot(|n: int| sc.logical(a, i + n), |n: int| sc.logical(b, j + n), 2)),
{
    lemma_device_two_f16_text(sc.k, a, ta, b, tb);
    let t0 = Term::Word(Word::Array(Arr::Device(a)));
    let t1 = Term::Word(Word::Array(Arr::Device(b)));
    let t2 = Term::Brackets(Box::new(ta));
    let t3 = Term::Infix(Sign::Plus, Box::new(t0), Box::new(t2));
    let t4 = Term::Brackets(Box::new(t3));
    let t5 = Term::Vector { group: false, half: true, width: 2, at: Box::new(t4) };
    let t6 = Term::Brackets(Box::new(t5));
    let t7 = Term::Member(Box::new(t6), false);
    let t8 = Term::Call1(Fun::ToFloat, Box::new(t7));
    let t9 = Term::Brackets(Box::new(tb));
    let t10 = Term::Infix(Sign::Plus, Box::new(t1), Box::new(t9));
    let t11 = Term::Brackets(Box::new(t10));
    let t12 = Term::Vector { group: false, half: true, width: 2, at: Box::new(t11) };
    let t13 = Term::Brackets(Box::new(t12));
    let t14 = Term::Member(Box::new(t13), false);
    let t15 = Term::Call1(Fun::ToFloat, Box::new(t14));
    let t16 = Term::Infix(Sign::Times, Box::new(t8), Box::new(t15));
    let t17 = Term::Brackets(Box::new(ta));
    let t18 = Term::Infix(Sign::Plus, Box::new(t0), Box::new(t17));
    let t19 = Term::Brackets(Box::new(t18));
    let t20 = Term::Vector { group: false, half: true, width: 2, at: Box::new(t19) };
    let t21 = Term::Brackets(Box::new(t20));
    let t22 = Term::Member(Box::new(t21), true);
    let t23 = Term::Call1(Fun::ToFloat, Box::new(t22));
    let t24 = Term::Brackets(Box::new(tb));
    let t25 = Term::Infix(Sign::Plus, Box::new(t1), Box::new(t24));
    let t26 = Term::Brackets(Box::new(t25));
    let t27 = Term::Vector { group: false, half: true, width: 2, at: Box::new(t26) };
    let t28 = Term::Brackets(Box::new(t27));
    let t29 = Term::Member(Box::new(t28), true);
    let t30 = Term::Call1(Fun::ToFloat, Box::new(t29));
    let t31 = Term::Infix(Sign::Times, Box::new(t23), Box::new(t30));
    let t32 = Term::Infix(Sign::Plus, Box::new(t16), Box::new(t31));
    let t33 = Term::Brackets(Box::new(t32));
    assert(grammatical(t0));
    assert(sc.eval(t0) == Val::<V>::Pointer(Arr::Device(a), 0));
    assert(grammatical(t1));
    assert(sc.eval(t1) == Val::<V>::Pointer(Arr::Device(b), 0));
    assert(grammatical(t2));
    assert(sc.eval(t2) == sc.eval(ta));
    assert(grammatical(t3));
    assert(sc.eval(t3) == sc.infix(Sign::Plus, sc.eval(t0), sc.eval(t2)));
    assert(grammatical(t4));
    assert(sc.eval(t4) == sc.eval(t3));
    assert(grammatical(t5));
    assert(!(sc.eval(t5) is Nonsense));
    assert(grammatical(t6));
    assert(sc.eval(t6) == sc.eval(t5));
    assert(grammatical(t7));
    assert(!(sc.eval(t7) is Nonsense));
    assert(grammatical(t8));
    assert(sc.eval(t8) == sc.call1(Fun::ToFloat, sc.eval(t7)));
    assert(grammatical(t9));
    assert(sc.eval(t9) == sc.eval(tb));
    assert(grammatical(t10));
    assert(sc.eval(t10) == sc.infix(Sign::Plus, sc.eval(t1), sc.eval(t9)));
    assert(grammatical(t11));
    assert(sc.eval(t11) == sc.eval(t10));
    assert(grammatical(t12));
    assert(!(sc.eval(t12) is Nonsense));
    assert(grammatical(t13));
    assert(sc.eval(t13) == sc.eval(t12));
    assert(grammatical(t14));
    assert(!(sc.eval(t14) is Nonsense));
    assert(grammatical(t15));
    assert(sc.eval(t15) == sc.call1(Fun::ToFloat, sc.eval(t14)));
    assert(grammatical(t16));
    assert(sc.eval(t16) == sc.infix(Sign::Times, sc.eval(t8), sc.eval(t15)));
    assert(grammatical(t17));
    assert(sc.eval(t17) == sc.eval(ta));
    assert(grammatical(t18));
    assert(sc.eval(t18) == sc.infix(Sign::Plus, sc.eval(t0), sc.eval(t17)));
    assert(grammatical(t19));
    assert(sc.eval(t19) == sc.eval(t18));
    assert(grammatical(t20));
    assert(!(sc.eval(t20) is Nonsense));
    assert(grammatical(t21));
    assert(sc.eval(t21) == sc.eval(t20));
    assert(grammatical(t22));
    assert(!(sc.eval(t22) is Nonsense));
    assert(grammatical(t23));
    assert(sc.eval(t23) == sc.call1(Fun::ToFloat, sc.eval(t22)));
    assert(grammatical(t24));
    assert(sc.eval(t24) == sc.eval(tb));
    assert(grammatical(t25));
    assert(sc.eval(t25) == sc.infix(Sign::Plus, sc.eval(t1), sc.eval(t24)));
    assert(grammatical(t26));
    assert(sc.eval(t26) == sc.eval(t25));
    assert(grammatical(t27));
    assert(!(sc.eval(t27) is Nonsense));
    assert(grammatical(t28));
    assert(sc.eval(t28) == sc.eval(t27));
    assert(grammatical(t29));
    assert(!(sc.eval(t29) is Nonsense));
    assert(grammatical(t30));
    assert(sc.eval(t30) == sc.call1(Fun::ToFloat, sc.eval(t29)));
    assert(grammatical(t31));
    assert(sc.eval(t31) == sc.infix(Sign::Times, sc.eval(t23), sc.eval(t30)));
    assert(grammatical(t32));
    assert(sc.eval(t32) == sc.infix(Sign::Plus, sc.eval(t16), sc.eval(t31)));
    assert(grammatical(t33));
    assert(sc.eval(t33) == sc.eval(t32));
    let (p, q) = (|n: int| sc.logical(a, i + n), |n: int| sc.logical(b, j + n));
    reveal_with_fuel(Arith::dot, 3);
    t33
}

/// The product of 1 element of type F16 with those of another buffer.
pub open spec fn device_one_f16(a: u32, ta: Term, b: u32, tb: Term) -> Term {
    Term::Brackets(Box::new(Term::Infix(Sign::Times, Box::new(Term::Call1(Fun::ToFloat, Box::new(Term::Element(Box::new(Term::Word(Word::Array(Arr::Device(a)))), Box::new(ta))))), Box::new(Term::Call1(Fun::ToFloat, Box::new(Term::Element(Box::new(Term::Word(Word::Array(Arr::Device(b)))), Box::new(tb))))))))
}

proof fn lemma_device_one_f16_literals()
    ensures
        same("(float("@, "("@ + "float"@ + "("@),
        same("]) * float("@, "]"@ + ")"@ + " * "@ + "float"@ + "("@),
        same("]))"@, "]"@ + ")"@ + ")"@),
{
    reveal_strlit(" * ");
    reveal_strlit("(");
    reveal_strlit("(float(");
    reveal_strlit(")");
    reveal_strlit("]");
    reveal_strlit("]) * float(");
    reveal_strlit("]))");
    reveal_strlit("float");
    assert("(float("@ =~= "("@ + "float"@ + "("@);
    assert("]) * float("@ =~= "]"@ + ")"@ + " * "@ + "float"@ + "("@);
    assert("]))"@ =~= "]"@ + ")"@ + ")"@);
}

proof fn lemma_device_one_f16_text(k: Params, a: u32, ta: Term, b: u32, tb: Term)
    ensures
        device_dot(
            1,
            DType::F16,
            array_name(k, Arr::Device(a)),
            written(k, ta),
            array_name(k, Arr::Device(b)),
            written(k, tb),
        ) matches Some(s) && same(s, written(k, device_one_f16(a, ta, b, tb))),
{
    lemma_cat();
    lemma_device_one_f16_literals();
    let t0 = Term::Word(Word::Array(Arr::Device(a)));
    let t1 = Term::Word(Word::Array(Arr::Device(b)));
    let t2 = Term::Element(Box::new(t0), Box::new(ta));
    let t3 = Term::Call1(Fun::ToFloat, Box::new(t2));
    let t4 = Term::Element(Box::new(t1), Box::new(tb));
    let t5 = Term::Call1(Fun::ToFloat, Box::new(t4));
    let t6 = Term::Infix(Sign::Times, Box::new(t3), Box::new(t5));
    let t7 = Term::Brackets(Box::new(t6));
    let na = array_name(k, Arr::Device(a));
    let nb = array_name(k, Arr::Device(b));
    let (wa, wb) = (written(k, ta), written(k, tb));
    assert(same(written(k, t0), na));
    assert(same(written(k, t1), nb));
    assert(same(written(k, t2), written(k, t0) + "["@ + written(k, ta) + "]"@));
    assert(same(written(k, t3), "float"@ + "("@ + written(k, t2) + ")"@));
    assert(same(written(k, t4), written(k, t1) + "["@ + written(k, tb) + "]"@));
    assert(same(written(k, t5), "float"@ + "("@ + written(k, t4) + ")"@));
    assert(same(written(k, t6), written(k, t3) + " * "@ + written(k, t5)));
    assert(same(written(k, t7), "("@ + written(k, t6) + ")"@));
    let text = device_dot(1, DType::F16, na, wa, nb, wb)->0;
    let flat = "("@ + "float"@ + "("@ + na + "["@ + wa + "]"@ + ")"@ + " * "@ + "float"@ + "("@ + nb + "["@ + wb + "]"@ + ")"@ + ")"@;
    assert(same(text, flat));
    assert(same(written(k, t7), flat));
}

proof fn lemma_device_one_f16<V>(sc: Scene<V>, a: u32, ta: Term, i: int, b: u32, tb: Term, j: int) -> (t: Term)
    requires
        (sc.k.kind)(a) == DType::F16,
        (sc.k.kind)(b) == DType::F16,
        sc.is_index(ta, i),
        sc.is_index(tb, j),
    ensures
        t == device_one_f16(a, ta, b, tb),
        device_dot(
            1,
            DType::F16,
            array_name(sc.k, Arr::Device(a)),
            written(sc.k, ta),
            array_name(sc.k, Arr::Device(b)),
            written(sc.k, tb),
        ) matches Some(s) && same(s, written(sc.k, t)),
        grammatical(t),
        looseness(t) <= 0,
        sc.eval(t) == Val::<V>::Float(sc.ar.dot(|n: int| sc.logical(a, i + n), |n: int| sc.logical(b, j + n), 1)),
{
    lemma_device_one_f16_text(sc.k, a, ta, b, tb);
    let t0 = Term::Word(Word::Array(Arr::Device(a)));
    let t1 = Term::Word(Word::Array(Arr::Device(b)));
    let t2 = Term::Element(Box::new(t0), Box::new(ta));
    let t3 = Term::Call1(Fun::ToFloat, Box::new(t2));
    let t4 = Term::Element(Box::new(t1), Box::new(tb));
    let t5 = Term::Call1(Fun::ToFloat, Box::new(t4));
    let t6 = Term::Infix(Sign::Times, Box::new(t3), Box::new(t5));
    let t7 = Term::Brackets(Box::new(t6));
    assert(grammatical(t0));
    assert(sc.eval(t0) == Val::<V>::Pointer(Arr::Device(a), 0));
    assert(grammatical(t1));
    assert(sc.eval(t1) == Val::<V>::Pointer(Arr::Device(b), 0));
    assert(grammatical(t2));
    assert(sc.eval(t2) == sc.element(Arr::Device(a), 0 + i));
    assert(grammatical(t3));
    assert(sc.eval(t3) == sc.call1(Fun::ToFloat, sc.eval(t2)));
    assert(grammatical(t4));
    assert(sc.eval(t4) == sc.element(Arr::Device(b), 0 + j));
    assert(grammatical(t5));
    assert(sc.eval(t5) == sc.call1(Fun::ToFloat, sc.eval(t4)));
    assert(grammatical(t6));
    assert(sc.eval(t6) == sc.infix(Sign::Times, sc.eval(t3), sc.eval(t5)));
    assert(grammatical(t7));
    assert(sc.eval(t7) == sc.eval(t6));
    let (p, q) = (|n: int| sc.logical(a, i + n), |n: int| sc.logical(b, j + n));
    reveal_with_fuel(Arith::dot, 3);
    t7
}

/// The product of 4 elements of type F32 with those of another buffer.
pub open spec fn device_four_float(a: u32, ta: Term, b: u32, tb: Term) -> Term {
    Term::Call2(Fun::Dot, Box::new(Term::Vector { group: false, half: false, width: 4, at: Box::new(Term::Brackets(Box::new(Term::Infix(Sign::Plus, Box::new(Term::Word(Word::Array(Arr::Device(a)))), Box::new(Term::Brackets(Box::new(ta))))))) }), Box::new(Term::Vector { group: false, half: false, width: 4, at: Box::new(Term::Brackets(Box::new(Term::Infix(Sign::Plus, Box::new(Term::Word(Word::Array(Arr::Device(b)))), Box::new(Term::Brackets(Box::new(tb))))))) }))
}

proof fn lemma_device_four_float_literals()
    ensures
        same("dot(*(device const float4*)("@, "dot"@ + "("@ + "*(device const float4*)"@ + "("@),
        same(" + ("@, " + "@ + "("@),
        same(")), *(device const float4*)("@, ")"@ + ")"@ + ", "@ + "*(device const float4*)"@ + "("@),
        same(" + ("@, " + "@ + "("@),
        same(")))"@, ")"@ + ")"@ + ")"@),
{
    reveal_strlit(" + ");
    reveal_strlit(" + (");
    reveal_strlit("(");
    reveal_strlit(")");
    reveal_strlit(")))");
    reveal_strlit(")), *(device const float4*)(");
    reveal_strlit("*(device const float4*)");
    reveal_strlit(", ");
    reveal_strlit("dot");
    reveal_strlit("dot(*(device const float4*)(");
    assert("dot(*(device const float4*)("@ =~= "dot"@ + "("@ + "*(device const float4*)"@ + "("@);
    assert(" + ("@ =~= " + "@ + "("@);
    assert(")), *(device const float4*)("@ =~= ")"@ + ")"@ + ", "@ + "*(device const float4*)"@ + "("@);
    assert(" + ("@ =~= " + "@ + "("@);
    assert(")))"@ =~= ")"@ + ")"@ + ")"@);
}

proof fn lemma_device_four_float_text(k: Params, a: u32, ta: Term, b: u32, tb: Term)
    ensures
        device_dot(
            4,
            DType::F32,
            array_name(k, Arr::Device(a)),
            written(k, ta),
            array_name(k, Arr::Device(b)),
            written(k, tb),
        ) matches Some(s) && same(s, written(k, device_four_float(a, ta, b, tb))),
{
    lemma_device_four_float_literals();
    let t0 = Term::Word(Word::Array(Arr::Device(a)));
    let t1 = Term::Word(Word::Array(Arr::Device(b)));
    let t2 = Term::Brackets(Box::new(ta));
    let t3 = Term::Infix(Sign::Plus, Box::new(t0), Box::new(t2));
    let t4 = Term::Brackets(Box::new(t3));
    let t5 = Term::Vector { group: false, half: false, width: 4, at: Box::new(t4) };
    let t6 = Term::Brackets(Box::new(tb));
    let t7 = Term::Infix(Sign::Plus, Box::new(t1), Box::new(t6));
    let t8 = Term::Brackets(Box::new(t7));
    let t9 = Term::Vector { group: false, half: false, width: 4, at: Box::new(t8) };
    let t10 = Term::Call2(Fun::Dot, Box::new(t5), Box::new(t9));
    let na = array_name(k, Arr::Device(a));
    let nb = array_name(k, Arr::Device(b));
    let (wa, wb) = (written(k, ta), written(k, tb));
    assert(same(written(k, t0), na));
    assert(same(written(k, t1), nb));
    assert(same(written(k, t2), "("@ + written(k, ta) + ")"@));
    assert(same(written(k, t3), written(k, t0) + " + "@ + written(k, t2)));
    assert(same(written(k, t4), "("@ + written(k, t3) + ")"@));
    assert(same(written(k, t5), "*(device const float4*)"@ + written(k, t4)));
    assert(same(written(k, t6), "("@ + written(k, tb) + ")"@));
    assert(same(written(k, t7), written(k, t1) + " + "@ + written(k, t6)));
    assert(same(written(k, t8), "("@ + written(k, t7) + ")"@));
    assert(same(written(k, t9), "*(device const float4*)"@ + written(k, t8)));
    assert(same(written(k, t10), "dot"@ + "("@ + written(k, t5) + ", "@ + written(k, t9) + ")"@));
    let text = device_dot(4, DType::F32, na, wa, nb, wb)->0;
    let o0 = "dot"@ + "("@ + "*(device const float4*)"@ + "("@;
    let o1 = o0 + na;
    lemma_add2(o1, " + "@, "("@);
    let o2 = o1 + " + "@ + "("@;
    let o3 = o2 + wa;
    lemma_add5(o3, ")"@, ")"@, ", "@, "*(device const float4*)"@, "("@);
    let o4 = o3 + ")"@ + ")"@ + ", "@ + "*(device const float4*)"@ + "("@;
    let o5 = o4 + nb;
    lemma_add2(o5, " + "@, "("@);
    let o6 = o5 + " + "@ + "("@;
    let o7 = o6 + wb;
    lemma_add3(o7, ")"@, ")"@, ")"@);
    let o8 = o7 + ")"@ + ")"@ + ")"@;
    assert(same(text, o8));
    let p0 = "dot"@;
    let p1 = p0 + "("@;
    lemma_add2(p1, "*(device const float4*)"@, written(k, t4));
    let p2 = p1 + "*(device const float4*)"@;
    lemma_add3(p2, "("@, written(k, t3), ")"@);
    let p3 = p2 + "("@;
    lemma_add3(p3, written(k, t0), " + "@, written(k, t2));
    let p4 = p3 + na;
    let p5 = p4 + " + "@;
    lemma_add3(p5, "("@, written(k, ta), ")"@);
    let p6 = p5 + "("@;
    let p7 = p6 + wa;
    let p8 = p7 + ")"@;
    assert(same(p5 + written(k, t2), p8));
    assert(same(p3 + written(k, t3), p8));
    let p9 = p8 + ")"@;
    assert(same(p2 + written(k, t4), p9));
    assert(same(p1 + written(k, t5), p9));
    let p10 = p9 + ", "@;
    lemma_add2(p10, "*(device const float4*)"@, written(k, t8));
    let p11 = p10 + "*(device const float4*)"@;
    lemma_add3(p11, "("@, written(k, t7), ")"@);
    let p12 = p11 + "("@;
    lemma_add3(p12, written(k, t1), " + "@, written(k, t6));
    let p13 = p12 + nb;
    let p14 = p13 + " + "@;
    lemma_add3(p14, "("@, written(k, tb), ")"@);
    let p15 = p14 + "("@;
    let p16 = p15 + wb;
    let p17 = p16 + ")"@;
    assert(same(p14 + written(k, t6), p17));
    assert(same(p12 + written(k, t7), p17));
    let p18 = p17 + ")"@;
    assert(same(p11 + written(k, t8), p18));
    assert(same(p10 + written(k, t9), p18));
    let p19 = p18 + ")"@;
    assert(same(written(k, t10), p19));
    assert(same(o8, p19));
}

proof fn lemma_device_four_float<V>(sc: Scene<V>, a: u32, ta: Term, i: int, b: u32, tb: Term, j: int) -> (t: Term)
    requires
        (sc.k.kind)(a) == DType::F32,
        (sc.k.kind)(b) == DType::F32,
        sc.is_index(ta, i),
        sc.is_index(tb, j),
    ensures
        t == device_four_float(a, ta, b, tb),
        device_dot(
            4,
            DType::F32,
            array_name(sc.k, Arr::Device(a)),
            written(sc.k, ta),
            array_name(sc.k, Arr::Device(b)),
            written(sc.k, tb),
        ) matches Some(s) && same(s, written(sc.k, t)),
        grammatical(t),
        looseness(t) <= 0,
        sc.eval(t) == Val::<V>::Float(sc.ar.dot(|n: int| sc.logical(a, i + n), |n: int| sc.logical(b, j + n), 4)),
{
    lemma_device_four_float_text(sc.k, a, ta, b, tb);
    let t0 = Term::Word(Word::Array(Arr::Device(a)));
    let t1 = Term::Word(Word::Array(Arr::Device(b)));
    let t2 = Term::Brackets(Box::new(ta));
    let t3 = Term::Infix(Sign::Plus, Box::new(t0), Box::new(t2));
    let t4 = Term::Brackets(Box::new(t3));
    let t5 = Term::Vector { group: false, half: false, width: 4, at: Box::new(t4) };
    let t6 = Term::Brackets(Box::new(tb));
    let t7 = Term::Infix(Sign::Plus, Box::new(t1), Box::new(t6));
    let t8 = Term::Brackets(Box::new(t7));
    let t9 = Term::Vector { group: false, half: false, width: 4, at: Box::new(t8) };
    let t10 = Term::Call2(Fun::Dot, Box::new(t5), Box::new(t9));
    assert(grammatical(t0));
    assert(sc.eval(t0) == Val::<V>::Pointer(Arr::Device(a), 0));
    assert(grammatical(t1));
    assert(sc.eval(t1) == Val::<V>::Pointer(Arr::Device(b), 0));
    assert(grammatical(t2));
    assert(sc.eval(t2) == sc.eval(ta));
    assert(grammatical(t3));
    assert(sc.eval(t3) == sc.infix(Sign::Plus, sc.eval(t0), sc.eval(t2)));
    assert(grammatical(t4));
    assert(sc.eval(t4) == sc.eval(t3));
    assert(grammatical(t5));
    assert(!(sc.eval(t5) is Nonsense));
    assert(grammatical(t6));
    assert(sc.eval(t6) == sc.eval(tb));
    assert(grammatical(t7));
    assert(sc.eval(t7) == sc.infix(Sign::Plus, sc.eval(t1), sc.eval(t6)));
    assert(grammatical(t8));
    assert(sc.eval(t8) == sc.eval(t7));
    assert(grammatical(t9));
    assert(!(sc.eval(t9) is Nonsense));
    assert(grammatical(t10));
    assert(sc.eval(t10) == sc.call2(Fun::Dot, sc.eval(t5), sc.eval(t9)));
    let (p, q) = (|n: int| sc.logical(a, i + n), |n: int| sc.logical(b, j + n));
    reveal_with_fuel(Arith::dot, 3);
    assert(sc.eval(t5) is Floats && sc.eval(t9) is Floats);
    let (x, y) = (sc.eval(t5)->Floats_0, sc.eval(t9)->Floats_0);
    assert(x.len() == 4 && y.len() == 4);
    assert(x[0] == p(0) && y[0] == q(0));
    assert(x[1] == p(1) && y[1] == q(1));
    assert(x[2] == p(2) && y[2] == q(2));
    assert(x[3] == p(3) && y[3] == q(3));
    lemma_dot_same(sc.ar, |n: int| x[n], p, |n: int| y[n], q, 4);
    t10
}

/// The product of 2 elements of type F32 with those of another buffer.
pub open spec fn device_two_float(a: u32, ta: Term, b: u32, tb: Term) -> Term {
    Term::Brackets(Box::new(Term::Infix(Sign::Plus, Box::new(Term::Infix(Sign::Times, Box::new(Term::Member(Box::new(Term::Brackets(Box::new(Term::Vector { group: false, half: false, width: 2, at: Box::new(Term::Brackets(Box::new(Term::Infix(Sign::Plus, Box::new(Term::Word(Word::Array(Arr::Device(a)))), Box::new(Term::Brackets(Box::new(ta))))))) }))), false)), Box::new(Term::Member(Box::new(Term::Brackets(Box::new(Term::Vector { group: false, half: false, width: 2, at: Box::new(Term::Brackets(Box::new(Term::Infix(Sign::Plus, Box::new(Term::Word(Word::Array(Arr::Device(b)))), Box::new(Term::Brackets(Box::new(tb))))))) }))), false)))), Box::new(Term::Infix(Sign::Times, Box::new(Term::Member(Box::new(Term::Brackets(Box::new(Term::Vector { group: false, half: false, width: 2, at: Box::new(Term::Brackets(Box::new(Term::Infix(Sign::Plus, Box::new(Term::Word(Word::Array(Arr::Device(a)))), Box::new(Term::Brackets(Box::new(ta))))))) }))), true)), Box::new(Term::Member(Box::new(Term::Brackets(Box::new(Term::Vector { group: false, half: false, width: 2, at: Box::new(Term::Brackets(Box::new(Term::Infix(Sign::Plus, Box::new(Term::Word(Word::Array(Arr::Device(b)))), Box::new(Term::Brackets(Box::new(tb))))))) }))), true)))))))
}

proof fn lemma_device_two_float_literals()
    ensures
        same("((*(device const float2*)("@, "("@ + "("@ + "*(device const float2*)"@ + "("@),
        same(" + ("@, " + "@ + "("@),
        same("))).x * (*(device const float2*)("@, ")"@ + ")"@ + ")"@ + ".x"@ + " * "@ + "("@ + "*(device const float2*)"@ + "("@),
        same(" + ("@, " + "@ + "("@),
        same("))).x + (*(device const float2*)("@, ")"@ + ")"@ + ")"@ + ".x"@ + " + "@ + "("@ + "*(device const float2*)"@ + "("@),
        same(" + ("@, " + "@ + "("@),
        same("))).y * (*(device const float2*)("@, ")"@ + ")"@ + ")"@ + ".y"@ + " * "@ + "("@ + "*(device const float2*)"@ + "("@),
        same(" + ("@, " + "@ + "("@),
        same("))).y)"@, ")"@ + ")"@ + ")"@ + ".y"@ + ")"@),
{
    reveal_strlit(" * ");
    reveal_strlit(" + ");
    reveal_strlit(" + (");
    reveal_strlit("(");
    reveal_strlit("((*(device const float2*)(");
    reveal_strlit(")");
    reveal_strlit("))).x * (*(device const float2*)(");
    reveal_strlit("))).x + (*(device const float2*)(");
    reveal_strlit("))).y * (*(device const float2*)(");
    reveal_strlit("))).y)");
    reveal_strlit("*(device const float2*)");
    reveal_strlit(".x");
    reveal_strlit(".y");
    assert("((*(device const float2*)("@ =~= "("@ + "("@ + "*(device const float2*)"@ + "("@);
    assert(" + ("@ =~= " + "@ + "("@);
    assert("))).x * (*(device const float2*)("@ =~= ")"@ + ")"@ + ")"@ + ".x"@ + " * "@ + "("@ + "*(device const float2*)"@ + "("@);
    assert(" + ("@ =~= " + "@ + "("@);
    assert("))).x + (*(device const float2*)("@ =~= ")"@ + ")"@ + ")"@ + ".x"@ + " + "@ + "("@ + "*(device const float2*)"@ + "("@);
    assert(" + ("@ =~= " + "@ + "("@);
    assert("))).y * (*(device const float2*)("@ =~= ")"@ + ")"@ + ")"@ + ".y"@ + " * "@ + "("@ + "*(device const float2*)"@ + "("@);
    assert(" + ("@ =~= " + "@ + "("@);
    assert("))).y)"@ =~= ")"@ + ")"@ + ")"@ + ".y"@ + ")"@);
}

proof fn lemma_device_two_float_text(k: Params, a: u32, ta: Term, b: u32, tb: Term)
    ensures
        device_dot(
            2,
            DType::F32,
            array_name(k, Arr::Device(a)),
            written(k, ta),
            array_name(k, Arr::Device(b)),
            written(k, tb),
        ) matches Some(s) && same(s, written(k, device_two_float(a, ta, b, tb))),
{
    lemma_device_two_float_literals();
    let t0 = Term::Word(Word::Array(Arr::Device(a)));
    let t1 = Term::Word(Word::Array(Arr::Device(b)));
    let t2 = Term::Brackets(Box::new(ta));
    let t3 = Term::Infix(Sign::Plus, Box::new(t0), Box::new(t2));
    let t4 = Term::Brackets(Box::new(t3));
    let t5 = Term::Vector { group: false, half: false, width: 2, at: Box::new(t4) };
    let t6 = Term::Brackets(Box::new(t5));
    let t7 = Term::Member(Box::new(t6), false);
    let t8 = Term::Brackets(Box::new(tb));
    let t9 = Term::Infix(Sign::Plus, Box::new(t1), Box::new(t8));
    let t10 = Term::Brackets(Box::new(t9));
    let t11 = Term::Vector { group: false, half: false, width: 2, at: Box::new(t10) };
    let t12 = Term::Brackets(Box::new(t11));
    let t13 = Term::Member(Box::new(t12), false);
    let t14 = Term::Infix(Sign::Times, Box::new(t7), Box::new(t13));
    let t15 = Term::Brackets(Box::new(ta));
    let t16 = Term::Infix(Sign::Plus, Box::new(t0), Box::new(t15));
    let t17 = Term::Brackets(Box::new(t16));
    let t18 = Term::Vector { group: false, half: false, width: 2, at: Box::new(t17) };
    let t19 = Term::Brackets(Box::new(t18));
    let t20 = Term::Member(Box::new(t19), true);
    let t21 = Term::Brackets(Box::new(tb));
    let t22 = Term::Infix(Sign::Plus, Box::new(t1), Box::new(t21));
    let t23 = Term::Brackets(Box::new(t22));
    let t24 = Term::Vector { group: false, half: false, width: 2, at: Box::new(t23) };
    let t25 = Term::Brackets(Box::new(t24));
    let t26 = Term::Member(Box::new(t25), true);
    let t27 = Term::Infix(Sign::Times, Box::new(t20), Box::new(t26));
    let t28 = Term::Infix(Sign::Plus, Box::new(t14), Box::new(t27));
    let t29 = Term::Brackets(Box::new(t28));
    let na = array_name(k, Arr::Device(a));
    let nb = array_name(k, Arr::Device(b));
    let (wa, wb) = (written(k, ta), written(k, tb));
    assert(same(written(k, t0), na));
    assert(same(written(k, t1), nb));
    assert(same(written(k, t2), "("@ + written(k, ta) + ")"@));
    assert(same(written(k, t3), written(k, t0) + " + "@ + written(k, t2)));
    assert(same(written(k, t4), "("@ + written(k, t3) + ")"@));
    assert(same(written(k, t5), "*(device const float2*)"@ + written(k, t4)));
    assert(same(written(k, t6), "("@ + written(k, t5) + ")"@));
    assert(same(written(k, t7), written(k, t6) + ".x"@));
    assert(same(written(k, t8), "("@ + written(k, tb) + ")"@));
    assert(same(written(k, t9), written(k, t1) + " + "@ + written(k, t8)));
    assert(same(written(k, t10), "("@ + written(k, t9) + ")"@));
    assert(same(written(k, t11), "*(device const float2*)"@ + written(k, t10)));
    assert(same(written(k, t12), "("@ + written(k, t11) + ")"@));
    assert(same(written(k, t13), written(k, t12) + ".x"@));
    assert(same(written(k, t14), written(k, t7) + " * "@ + written(k, t13)));
    assert(same(written(k, t15), "("@ + written(k, ta) + ")"@));
    assert(same(written(k, t16), written(k, t0) + " + "@ + written(k, t15)));
    assert(same(written(k, t17), "("@ + written(k, t16) + ")"@));
    assert(same(written(k, t18), "*(device const float2*)"@ + written(k, t17)));
    assert(same(written(k, t19), "("@ + written(k, t18) + ")"@));
    assert(same(written(k, t20), written(k, t19) + ".y"@));
    assert(same(written(k, t21), "("@ + written(k, tb) + ")"@));
    assert(same(written(k, t22), written(k, t1) + " + "@ + written(k, t21)));
    assert(same(written(k, t23), "("@ + written(k, t22) + ")"@));
    assert(same(written(k, t24), "*(device const float2*)"@ + written(k, t23)));
    assert(same(written(k, t25), "("@ + written(k, t24) + ")"@));
    assert(same(written(k, t26), written(k, t25) + ".y"@));
    assert(same(written(k, t27), written(k, t20) + " * "@ + written(k, t26)));
    assert(same(written(k, t28), written(k, t14) + " + "@ + written(k, t27)));
    assert(same(written(k, t29), "("@ + written(k, t28) + ")"@));
    let text = device_dot(2, DType::F32, na, wa, nb, wb)->0;
    let o0 = "("@ + "("@ + "*(device const float2*)"@ + "("@;
    let o1 = o0 + na;
    lemma_add2(o1, " + "@, "("@);
    let o2 = o1 + " + "@ + "("@;
    let o3 = o2 + wa;
    lemma_add8(o3, ")"@, ")"@, ")"@, ".x"@, " * "@, "("@, "*(device const float2*)"@, "("@);
    let o4 = o3 + ")"@ + ")"@ + ")"@ + ".x"@ + " * "@ + "("@ + "*(device const float2*)"@ + "("@;
    let o5 = o4 + nb;
    lemma_add2(o5, " + "@, "("@);
    let o6 = o5 + " + "@ + "("@;
    let o7 = o6 + wb;
    lemma_add8(o7, ")"@, ")"@, ")"@, ".x"@, " + "@, "("@, "*(device const float2*)"@, "("@);
    let o8 = o7 + ")"@ + ")"@ + ")"@ + ".x"@ + " + "@ + "("@ + "*(device const float2*)"@ + "("@;
    let o9 = o8 + na;
    lemma_add2(o9, " + "@, "("@);
    let o10 = o9 + " + "@ + "("@;
    let o11 = o10 + wa;
    lemma_add8(o11, ")"@, ")"@, ")"@, ".y"@, " * "@, "("@, "*(device const float2*)"@, "("@);
    let o12 = o11 + ")"@ + ")"@ + ")"@ + ".y"@ + " * "@ + "("@ + "*(device const float2*)"@ + "("@;
    let o13 = o12 + nb;
    lemma_add2(o13, " + "@, "("@);
    let o14 = o13 + " + "@ + "("@;
    let o15 = o14 + wb;
    lemma_add5(o15, ")"@, ")"@, ")"@, ".y"@, ")"@);
    let o16 = o15 + ")"@ + ")"@ + ")"@ + ".y"@ + ")"@;
    assert(same(text, o16));
    let p0 = "("@;
    lemma_add3(p0, written(k, t14), " + "@, written(k, t27));
    lemma_add3(p0, written(k, t7), " * "@, written(k, t13));
    lemma_add2(p0, written(k, t6), ".x"@);
    lemma_add3(p0, "("@, written(k, t5), ")"@);
    let p1 = p0 + "("@;
    lemma_add2(p1, "*(device const float2*)"@, written(k, t4));
    let p2 = p1 + "*(device const float2*)"@;
    lemma_add3(p2, "("@, written(k, t3), ")"@);
    let p3 = p2 + "("@;
    lemma_add3(p3, written(k, t0), " + "@, written(k, t2));
    let p4 = p3 + na;
    let p5 = p4 + " + "@;
    lemma_add3(p5, "("@, written(k, ta), ")"@);
    let p6 = p5 + "("@;
    let p7 = p6 + wa;
    let p8 = p7 + ")"@;
    assert(same(p5 + written(k, t2), p8));
    assert(same(p3 + written(k, t3), p8));
    let p9 = p8 + ")"@;
    assert(same(p2 + written(k, t4), p9));
    assert(same(p1 + written(k, t5), p9));
    let p10 = p9 + ")"@;
    assert(same(p0 + written(k, t6), p10));
    let p11 = p10 + ".x"@;
    assert(same(p0 + written(k, t7), p11));
    let p12 = p11 + " * "@;
    lemma_add2(p12, written(k, t12), ".x"@);
    lemma_add3(p12, "("@, written(k, t11), ")"@);
    let p13 = p12 + "("@;
    lemma_add2(p13, "*(device const float2*)"@, written(k, t10));
    let p14 = p13 + "*(device const float2*)"@;
    lemma_add3(p14, "("@, written(k, t9), ")"@);
    let p15 = p14 + "("@;
    lemma_add3(p15, written(k, t1), " + "@, written(k, t8));
    let p16 = p15 + nb;
    let p17 = p16 + " + "@;
    lemma_add3(p17, "("@, written(k, tb), ")"@);
    let p18 = p17 + "("@;
    let p19 = p18 + wb;
    let p20 = p19 + ")"@;
    assert(same(p17 + written(k, t8), p20));
    assert(same(p15 + written(k, t9), p20));
    let p21 = p20 + ")"@;
    assert(same(p14 + written(k, t10), p21));
    assert(same(p13 + written(k, t11), p21));
    let p22 = p21 + ")"@;
    assert(same(p12 + written(k, t12), p22));
    let p23 = p22 + ".x"@;
    assert(same(p12 + written(k, t13), p23));
    assert(same(p0 + written(k, t14), p23));
    let p24 = p23 + " + "@;
    lemma_add3(p24, written(k, t20), " * "@, written(k, t26));
    lemma_add2(p24, written(k, t19), ".y"@);
    lemma_add3(p24, "("@, written(k, t18), ")"@);
    let p25 = p24 + "("@;
    lemma_add2(p25, "*(device const float2*)"@, written(k, t17));
    let p26 = p25 + "*(device const float2*)"@;
    lemma_add3(p26, "("@, written(k, t16), ")"@);
    let p27 = p26 + "("@;
    lemma_add3(p27, written(k, t0), " + "@, written(k, t15));
    let p28 = p27 + na;
    let p29 = p28 + " + "@;
    lemma_add3(p29, "("@, written(k, ta), ")"@);
    let p30 = p29 + "("@;
    let p31 = p30 + wa;
    let p32 = p31 + ")"@;
    assert(same(p29 + written(k, t15), p32));
    assert(same(p27 + written(k, t16), p32));
    let p33 = p32 + ")"@;
    assert(same(p26 + written(k, t17), p33));
    assert(same(p25 + written(k, t18), p33));
    let p34 = p33 + ")"@;
    assert(same(p24 + written(k, t19), p34));
    let p35 = p34 + ".y"@;
    assert(same(p24 + written(k, t20), p35));
    let p36 = p35 + " * "@;
    lemma_add2(p36, written(k, t25), ".y"@);
    lemma_add3(p36, "("@, written(k, t24), ")"@);
    let p37 = p36 + "("@;
    lemma_add2(p37, "*(device const float2*)"@, written(k, t23));
    let p38 = p37 + "*(device const float2*)"@;
    lemma_add3(p38, "("@, written(k, t22), ")"@);
    let p39 = p38 + "("@;
    lemma_add3(p39, written(k, t1), " + "@, written(k, t21));
    let p40 = p39 + nb;
    let p41 = p40 + " + "@;
    lemma_add3(p41, "("@, written(k, tb), ")"@);
    let p42 = p41 + "("@;
    let p43 = p42 + wb;
    let p44 = p43 + ")"@;
    assert(same(p41 + written(k, t21), p44));
    assert(same(p39 + written(k, t22), p44));
    let p45 = p44 + ")"@;
    assert(same(p38 + written(k, t23), p45));
    assert(same(p37 + written(k, t24), p45));
    let p46 = p45 + ")"@;
    assert(same(p36 + written(k, t25), p46));
    let p47 = p46 + ".y"@;
    assert(same(p36 + written(k, t26), p47));
    assert(same(p24 + written(k, t27), p47));
    assert(same(p0 + written(k, t28), p47));
    let p48 = p47 + ")"@;
    assert(same(written(k, t29), p48));
    assert(same(o16, p48));
}

proof fn lemma_device_two_float<V>(sc: Scene<V>, a: u32, ta: Term, i: int, b: u32, tb: Term, j: int) -> (t: Term)
    requires
        (sc.k.kind)(a) == DType::F32,
        (sc.k.kind)(b) == DType::F32,
        sc.is_index(ta, i),
        sc.is_index(tb, j),
    ensures
        t == device_two_float(a, ta, b, tb),
        device_dot(
            2,
            DType::F32,
            array_name(sc.k, Arr::Device(a)),
            written(sc.k, ta),
            array_name(sc.k, Arr::Device(b)),
            written(sc.k, tb),
        ) matches Some(s) && same(s, written(sc.k, t)),
        grammatical(t),
        looseness(t) <= 0,
        sc.eval(t) == Val::<V>::Float(sc.ar.dot(|n: int| sc.logical(a, i + n), |n: int| sc.logical(b, j + n), 2)),
{
    lemma_device_two_float_text(sc.k, a, ta, b, tb);
    let t0 = Term::Word(Word::Array(Arr::Device(a)));
    let t1 = Term::Word(Word::Array(Arr::Device(b)));
    let t2 = Term::Brackets(Box::new(ta));
    let t3 = Term::Infix(Sign::Plus, Box::new(t0), Box::new(t2));
    let t4 = Term::Brackets(Box::new(t3));
    let t5 = Term::Vector { group: false, half: false, width: 2, at: Box::new(t4) };
    let t6 = Term::Brackets(Box::new(t5));
    let t7 = Term::Member(Box::new(t6), false);
    let t8 = Term::Brackets(Box::new(tb));
    let t9 = Term::Infix(Sign::Plus, Box::new(t1), Box::new(t8));
    let t10 = Term::Brackets(Box::new(t9));
    let t11 = Term::Vector { group: false, half: false, width: 2, at: Box::new(t10) };
    let t12 = Term::Brackets(Box::new(t11));
    let t13 = Term::Member(Box::new(t12), false);
    let t14 = Term::Infix(Sign::Times, Box::new(t7), Box::new(t13));
    let t15 = Term::Brackets(Box::new(ta));
    let t16 = Term::Infix(Sign::Plus, Box::new(t0), Box::new(t15));
    let t17 = Term::Brackets(Box::new(t16));
    let t18 = Term::Vector { group: false, half: false, width: 2, at: Box::new(t17) };
    let t19 = Term::Brackets(Box::new(t18));
    let t20 = Term::Member(Box::new(t19), true);
    let t21 = Term::Brackets(Box::new(tb));
    let t22 = Term::Infix(Sign::Plus, Box::new(t1), Box::new(t21));
    let t23 = Term::Brackets(Box::new(t22));
    let t24 = Term::Vector { group: false, half: false, width: 2, at: Box::new(t23) };
    let t25 = Term::Brackets(Box::new(t24));
    let t26 = Term::Member(Box::new(t25), true);
    let t27 = Term::Infix(Sign::Times, Box::new(t20), Box::new(t26));
    let t28 = Term::Infix(Sign::Plus, Box::new(t14), Box::new(t27));
    let t29 = Term::Brackets(Box::new(t28));
    assert(grammatical(t0));
    assert(sc.eval(t0) == Val::<V>::Pointer(Arr::Device(a), 0));
    assert(grammatical(t1));
    assert(sc.eval(t1) == Val::<V>::Pointer(Arr::Device(b), 0));
    assert(grammatical(t2));
    assert(sc.eval(t2) == sc.eval(ta));
    assert(grammatical(t3));
    assert(sc.eval(t3) == sc.infix(Sign::Plus, sc.eval(t0), sc.eval(t2)));
    assert(grammatical(t4));
    assert(sc.eval(t4) == sc.eval(t3));
    assert(grammatical(t5));
    assert(!(sc.eval(t5) is Nonsense));
    assert(grammatical(t6));
    assert(sc.eval(t6) == sc.eval(t5));
    assert(grammatical(t7));
    assert(!(sc.eval(t7) is Nonsense));
    assert(grammatical(t8));
    assert(sc.eval(t8) == sc.eval(tb));
    assert(grammatical(t9));
    assert(sc.eval(t9) == sc.infix(Sign::Plus, sc.eval(t1), sc.eval(t8)));
    assert(grammatical(t10));
    assert(sc.eval(t10) == sc.eval(t9));
    assert(grammatical(t11));
    assert(!(sc.eval(t11) is Nonsense));
    assert(grammatical(t12));
    assert(sc.eval(t12) == sc.eval(t11));
    assert(grammatical(t13));
    assert(!(sc.eval(t13) is Nonsense));
    assert(grammatical(t14));
    assert(sc.eval(t14) == sc.infix(Sign::Times, sc.eval(t7), sc.eval(t13)));
    assert(grammatical(t15));
    assert(sc.eval(t15) == sc.eval(ta));
    assert(grammatical(t16));
    assert(sc.eval(t16) == sc.infix(Sign::Plus, sc.eval(t0), sc.eval(t15)));
    assert(grammatical(t17));
    assert(sc.eval(t17) == sc.eval(t16));
    assert(grammatical(t18));
    assert(!(sc.eval(t18) is Nonsense));
    assert(grammatical(t19));
    assert(sc.eval(t19) == sc.eval(t18));
    assert(grammatical(t20));
    assert(!(sc.eval(t20) is Nonsense));
    assert(grammatical(t21));
    assert(sc.eval(t21) == sc.eval(tb));
    assert(grammatical(t22));
    assert(sc.eval(t22) == sc.infix(Sign::Plus, sc.eval(t1), sc.eval(t21)));
    assert(grammatical(t23));
    assert(sc.eval(t23) == sc.eval(t22));
    assert(grammatical(t24));
    assert(!(sc.eval(t24) is Nonsense));
    assert(grammatical(t25));
    assert(sc.eval(t25) == sc.eval(t24));
    assert(grammatical(t26));
    assert(!(sc.eval(t26) is Nonsense));
    assert(grammatical(t27));
    assert(sc.eval(t27) == sc.infix(Sign::Times, sc.eval(t20), sc.eval(t26)));
    assert(grammatical(t28));
    assert(sc.eval(t28) == sc.infix(Sign::Plus, sc.eval(t14), sc.eval(t27)));
    assert(grammatical(t29));
    assert(sc.eval(t29) == sc.eval(t28));
    let (p, q) = (|n: int| sc.logical(a, i + n), |n: int| sc.logical(b, j + n));
    reveal_with_fuel(Arith::dot, 3);
    t29
}

/// The product of 1 element of type F32 with those of another buffer.
pub open spec fn device_one_float(a: u32, ta: Term, b: u32, tb: Term) -> Term {
    Term::Infix(Sign::Times, Box::new(Term::Element(Box::new(Term::Word(Word::Array(Arr::Device(a)))), Box::new(ta))), Box::new(Term::Element(Box::new(Term::Word(Word::Array(Arr::Device(b)))), Box::new(tb))))
}

proof fn lemma_device_one_float_literals()
    ensures
        same("] * "@, "]"@ + " * "@),
{
    reveal_strlit(" * ");
    reveal_strlit("]");
    reveal_strlit("] * ");
    assert("] * "@ =~= "]"@ + " * "@);
}

proof fn lemma_device_one_float_text(k: Params, a: u32, ta: Term, b: u32, tb: Term)
    ensures
        device_dot(
            1,
            DType::F32,
            array_name(k, Arr::Device(a)),
            written(k, ta),
            array_name(k, Arr::Device(b)),
            written(k, tb),
        ) matches Some(s) && same(s, written(k, device_one_float(a, ta, b, tb))),
{
    lemma_cat();
    lemma_device_one_float_literals();
    let t0 = Term::Word(Word::Array(Arr::Device(a)));
    let t1 = Term::Word(Word::Array(Arr::Device(b)));
    let t2 = Term::Element(Box::new(t0), Box::new(ta));
    let t3 = Term::Element(Box::new(t1), Box::new(tb));
    let t4 = Term::Infix(Sign::Times, Box::new(t2), Box::new(t3));
    let na = array_name(k, Arr::Device(a));
    let nb = array_name(k, Arr::Device(b));
    let (wa, wb) = (written(k, ta), written(k, tb));
    assert(same(written(k, t0), na));
    assert(same(written(k, t1), nb));
    assert(same(written(k, t2), written(k, t0) + "["@ + written(k, ta) + "]"@));
    assert(same(written(k, t3), written(k, t1) + "["@ + written(k, tb) + "]"@));
    assert(same(written(k, t4), written(k, t2) + " * "@ + written(k, t3)));
    let text = device_dot(1, DType::F32, na, wa, nb, wb)->0;
    let flat = na + "["@ + wa + "]"@ + " * "@ + nb + "["@ + wb + "]"@;
    assert(same(text, flat));
    assert(same(written(k, t4), flat));
}

proof fn lemma_device_one_float<V>(sc: Scene<V>, a: u32, ta: Term, i: int, b: u32, tb: Term, j: int) -> (t: Term)
    requires
        (sc.k.kind)(a) == DType::F32,
        (sc.k.kind)(b) == DType::F32,
        sc.is_index(ta, i),
        sc.is_index(tb, j),
    ensures
        t == device_one_float(a, ta, b, tb),
        device_dot(
            1,
            DType::F32,
            array_name(sc.k, Arr::Device(a)),
            written(sc.k, ta),
            array_name(sc.k, Arr::Device(b)),
            written(sc.k, tb),
        ) matches Some(s) && same(s, written(sc.k, t)),
        grammatical(t),
        looseness(t) <= 2,
        sc.eval(t) == Val::<V>::Float(sc.ar.dot(|n: int| sc.logical(a, i + n), |n: int| sc.logical(b, j + n), 1)),
{
    lemma_device_one_float_text(sc.k, a, ta, b, tb);
    let t0 = Term::Word(Word::Array(Arr::Device(a)));
    let t1 = Term::Word(Word::Array(Arr::Device(b)));
    let t2 = Term::Element(Box::new(t0), Box::new(ta));
    let t3 = Term::Element(Box::new(t1), Box::new(tb));
    let t4 = Term::Infix(Sign::Times, Box::new(t2), Box::new(t3));
    assert(grammatical(t0));
    assert(sc.eval(t0) == Val::<V>::Pointer(Arr::Device(a), 0));
    assert(grammatical(t1));
    assert(sc.eval(t1) == Val::<V>::Pointer(Arr::Device(b), 0));
    assert(grammatical(t2));
    assert(sc.eval(t2) == sc.element(Arr::Device(a), 0 + i));
    assert(grammatical(t3));
    assert(sc.eval(t3) == sc.element(Arr::Device(b), 0 + j));
    assert(grammatical(t4));
    assert(sc.eval(t4) == sc.infix(Sign::Times, sc.eval(t2), sc.eval(t3)));
    let (p, q) = (|n: int| sc.logical(a, i + n), |n: int| sc.logical(b, j + n));
    reveal_with_fuel(Arith::dot, 3);
    t4
}

/// The products that are written: of single and half precision one, two or four at a time, of
/// packed elements as many as there are loads for.
pub open spec fn has_product(width: u32, dtype: DType) -> bool {
    match dtype {
        DType::F32 | DType::F16 => width == 1 || width == 2 || width == 4,
        DType::Q4K => width == 1 || width == 2 || width == 4 || width == 32 || width == 256,
        DType::Q6K => width == 1,
        DType::Q40 => width == 1 || width == 4,
        _ => false,
    }
}

/// Whether a product is written without brackets around it.
pub open spec fn is_bare(width: u32, dtype: DType) -> bool {
    width == 1 && dtype is F32
}

/// A product with staged elements, as it is written.
pub open spec fn staged_product(
    a: u32,
    ta: Term,
    id: u32,
    tb: Term,
    width: u32,
    dtype: DType,
) -> Term {
    if dtype is Q4K && width == 1 {
        staged_one_q4k(a, ta, id, tb)
    } else if dtype is Q6K && width == 1 {
        staged_one_q6k(a, ta, id, tb)
    } else if dtype is Q40 && width == 1 {
        staged_one_q40(a, ta, id, tb)
    } else if dtype is Q4K && width == 2 {
        staged_two_q4k(a, ta, id, tb)
    } else if dtype is Q4K && width == 4 {
        staged_four_q4k(a, ta, id, tb)
    } else if dtype is Q40 && width == 4 {
        staged_four_q40(a, ta, id, tb)
    } else if dtype is Q4K && width == 32 {
        staged_32(a, ta, id, tb)
    } else if dtype is Q4K && width == 256 {
        staged_256(a, ta, id, tb)
    } else if dtype is F16 && width == 4 {
        staged_four_f16(a, ta, id, tb)
    } else if dtype is F16 && width == 2 {
        staged_two_f16(a, ta, id, tb)
    } else if dtype is F16 && width == 1 {
        staged_one_f16(a, ta, id, tb)
    } else if dtype is F32 && width == 4 {
        staged_four_float(a, ta, id, tb)
    } else if dtype is F32 && width == 2 {
        staged_two_float(a, ta, id, tb)
    } else {
        staged_one_float(a, ta, id, tb)
    }
}

/// A product of elements of two buffers, as it is written.
pub open spec fn device_product(
    a: u32,
    ta: Term,
    b: u32,
    tb: Term,
    width: u32,
    dtype: DType,
) -> Term {
    if dtype is Q4K && width == 1 {
        device_one_q4k(a, ta, b, tb)
    } else if dtype is Q6K && width == 1 {
        device_one_q6k(a, ta, b, tb)
    } else if dtype is Q40 && width == 1 {
        device_one_q40(a, ta, b, tb)
    } else if dtype is Q4K && width == 2 {
        device_two_q4k(a, ta, b, tb)
    } else if dtype is Q4K && width == 4 {
        device_four_q4k(a, ta, b, tb)
    } else if dtype is Q40 && width == 4 {
        device_four_q40(a, ta, b, tb)
    } else if dtype is Q4K && width == 32 {
        device_32(a, ta, b, tb)
    } else if dtype is Q4K && width == 256 {
        device_256(a, ta, b, tb)
    } else if dtype is F16 && width == 4 {
        device_four_f16(a, ta, b, tb)
    } else if dtype is F16 && width == 2 {
        device_two_f16(a, ta, b, tb)
    } else if dtype is F16 && width == 1 {
        device_one_f16(a, ta, b, tb)
    } else if dtype is F32 && width == 4 {
        device_four_float(a, ta, b, tb)
    } else if dtype is F32 && width == 2 {
        device_two_float(a, ta, b, tb)
    } else {
        device_one_float(a, ta, b, tb)
    }
}

/// A product of elements of a buffer and of an array of the group is written as an expression that
/// evaluates to the sum of as many products.
pub proof fn lemma_staged_product<V>(
    sc: Scene<V>,
    a: u32,
    ta: Term,
    i: int,
    id: u32,
    tb: Term,
    j: int,
    width: u32,
    dtype: DType,
) -> (t: Term)
    requires
        has_product(width, dtype),
        (sc.k.kind)(a) == dtype,
        sc.is_index(ta, i),
        sc.is_index(tb, j),
    ensures
        t == staged_product(a, ta, id, tb, width, dtype),
        staged_dot(
            width,
            dtype,
            array_name(sc.k, Arr::Device(a)),
            written(sc.k, ta),
            dec(id as nat),
            written(sc.k, tb),
        ) matches Some(s) && same(s, written(sc.k, t)),
        grammatical(t),
        looseness(t) <= (if is_bare(width, dtype) {
            2int
        } else {
            0
        }),
        sc.eval(t) == Val::<V>::Float(
            sc.ar.dot(
                |n: int| sc.logical(a, i + n),
                |n: int| shared_at(sc.l, sc.r, id, j + n),
                width as nat,
            ),
        ),
{
    if dtype is Q4K && width == 1 {
        lemma_staged_one_q4k(sc, a, ta, i, id, tb, j)
    } else if dtype is Q6K && width == 1 {
        lemma_staged_one_q6k(sc, a, ta, i, id, tb, j)
    } else if dtype is Q40 && width == 1 {
        lemma_staged_one_q40(sc, a, ta, i, id, tb, j)
    } else if dtype is Q4K && width == 2 {
        lemma_staged_two_q4k(sc, a, ta, i, id, tb, j)
    } else if dtype is Q4K && width == 4 {
        lemma_staged_four_q4k(sc, a, ta, i, id, tb, j)
    } else if dtype is Q40 && width == 4 {
        lemma_staged_four_q40(sc, a, ta, i, id, tb, j)
    } else if dtype is Q4K && width == 32 {
        lemma_staged_32(sc, a, ta, i, id, tb, j)
    } else if dtype is Q4K && width == 256 {
        lemma_staged_256(sc, a, ta, i, id, tb, j)
    } else if dtype is F16 && width == 4 {
        lemma_staged_four_f16(sc, a, ta, i, id, tb, j)
    } else if dtype is F16 && width == 2 {
        lemma_staged_two_f16(sc, a, ta, i, id, tb, j)
    } else if dtype is F16 && width == 1 {
        lemma_staged_one_f16(sc, a, ta, i, id, tb, j)
    } else if dtype is F32 && width == 4 {
        lemma_staged_four_float(sc, a, ta, i, id, tb, j)
    } else if dtype is F32 && width == 2 {
        lemma_staged_two_float(sc, a, ta, i, id, tb, j)
    } else {
        lemma_staged_one_float(sc, a, ta, i, id, tb, j)
    }
}

/// A product of elements of two buffers is written as an expression that evaluates to the sum of
/// as many products.
pub proof fn lemma_device_product<V>(
    sc: Scene<V>,
    a: u32,
    ta: Term,
    i: int,
    b: u32,
    tb: Term,
    j: int,
    width: u32,
    dtype: DType,
) -> (t: Term)
    requires
        has_product(width, dtype),
        (sc.k.kind)(a) == dtype,
        (sc.k.kind)(b) == (if dtype is F32 {
            DType::F32
        } else {
            DType::F16
        }),
        sc.is_index(ta, i),
        sc.is_index(tb, j),
        (dtype is Q4K || dtype is Q40) && (width == 2 || width == 4) ==> 0 <= j < 0x1_0000_0000
            - width,
    ensures
        t == device_product(a, ta, b, tb, width, dtype),
        device_dot(
            width,
            dtype,
            array_name(sc.k, Arr::Device(a)),
            written(sc.k, ta),
            array_name(sc.k, Arr::Device(b)),
            written(sc.k, tb),
        ) matches Some(s) && same(s, written(sc.k, t)),
        grammatical(t),
        looseness(t) <= (if is_bare(width, dtype) {
            2int
        } else {
            0
        }),
        sc.eval(t) == Val::<V>::Float(
            sc.ar.dot(
                |n: int| sc.logical(a, i + n),
                |n: int| sc.logical(b, j + n),
                width as nat,
            ),
        ),
{
    if dtype is Q4K && width == 1 {
        lemma_device_one_q4k(sc, a, ta, i, b, tb, j)
    } else if dtype is Q6K && width == 1 {
        lemma_device_one_q6k(sc, a, ta, i, b, tb, j)
    } else if dtype is Q40 && width == 1 {
        lemma_device_one_q40(sc, a, ta, i, b, tb, j)
    } else if dtype is Q4K && width == 2 {
        lemma_device_two_q4k(sc, a, ta, i, b, tb, j)
    } else if dtype is Q4K && width == 4 {
        lemma_device_four_q4k(sc, a, ta, i, b, tb, j)
    } else if dtype is Q40 && width == 4 {
        lemma_device_four_q40(sc, a, ta, i, b, tb, j)
    } else if dtype is Q4K && width == 32 {
        lemma_device_32(sc, a, ta, i, b, tb, j)
    } else if dtype is Q4K && width == 256 {
        lemma_device_256(sc, a, ta, i, b, tb, j)
    } else if dtype is F16 && width == 4 {
        lemma_device_four_f16(sc, a, ta, i, b, tb, j)
    } else if dtype is F16 && width == 2 {
        lemma_device_two_f16(sc, a, ta, i, b, tb, j)
    } else if dtype is F16 && width == 1 {
        lemma_device_one_f16(sc, a, ta, i, b, tb, j)
    } else if dtype is F32 && width == 4 {
        lemma_device_four_float(sc, a, ta, i, b, tb, j)
    } else if dtype is F32 && width == 2 {
        lemma_device_two_float(sc, a, ta, i, b, tb, j)
    } else {
        lemma_device_one_float(sc, a, ta, i, b, tb, j)
    }
}

} // verus!
