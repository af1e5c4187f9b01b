//! The command line: arguments as values, the demonstration graphs, and the checks of a bench.

use vstd::prelude::*;
use vstd::string::*;

use crate::codegen::beam::{join_path, joined, number, parse_number};
use crate::ir::dtype::{matrix_shape, vector_shape, DType, IrError, TensorId};
use crate::ir::graph::{Graph, Step};
use crate::kernels::kernel::{given, no_nodes};
use crate::text::{
    chars_of, contains, cut, find, find_str, has_str, starts_with, text_of, trim, trimmed,
};

verus! {

/// A path whose leading tilde stands for the home directory.
pub open spec fn home_path(p: Seq<char>, home: Option<Seq<char>>) -> Seq<char> {
    match home {
        Some(h) if starts_with(p, "~/"@) => if p.skip(2).len() > 0 && p[2] == '/' {
            p.skip(2)
        } else {
            joined(h, p.skip(2))
        },
        _ => p,
    }
}

/// Puts the home directory, if there is one, in place of a leading tilde.
pub fn expand_home(p: &str, home: Option<&str>) -> (r: String)
    ensures
        r@ == home_path(
            p@,
            match home {
                Some(h) => Some(h@),
                None => None,
            },
        ),
{
    proof {
        reveal_strlit("~/");
    }
    let v = chars_of(p);
    if let Some(h) = home {
        if crate::text::starts_with_str(&v, "~/") {
            let rest = cut(&v, 2, v.len());
            assert(rest@ =~= v@.skip(2));
            if rest.len() > 0 && rest[0] == '/' {
                return text_of(&rest);
            }
            return join_path(h, text_of(&rest).as_str());
        }
    }
    String::from_str(p)
}

/// A token number, with white space around it.
pub open spec fn token_number(s: Seq<char>) -> Option<u32> {
    match number(trim(s), u32::MAX as nat) {
        Some(n) => Some(n as u32),
        None => None,
    }
}

/// Token numbers with commas between them; none if one of them is none.
pub open spec fn token_numbers(s: Seq<char>, acc: Seq<u32>) -> Option<Seq<u32>>
    decreases s.len(),
{
    match find(s, ","@, 0) {
        Some(i) if 0 <= i < s.len() => match token_number(s.take(i)) {
            Some(n) => token_numbers(s.skip(i + 1), acc.push(n)),
            None => None,
        },
        _ => match token_number(s) {
            Some(n) => Some(acc.push(n)),
            None => None,
        },
    }
}

fn parse_token(v: &Vec<char>) -> (r: Option<u32>)
    ensures
        r == token_number(v@),
{
    match parse_number(&trimmed(v), u32::MAX as u64) {
        Some(n) => Some(n as u32),
        None => None,
    }
}

/// Reads token numbers with commas between them.
pub fn parse_tokens(text: &str) -> (r: Option<Vec<u32>>)
    ensures
        match r {
            Some(v) => token_numbers(text@, Seq::empty()) == Some(v@),
            None => token_numbers(text@, Seq::empty()) is None,
        },
{
    proof {
        reveal_strlit(",");
    }
    let mut rest: Vec<char> = chars_of(text);
    let mut out: Vec<u32> = Vec::new();
    assert(out@ =~= Seq::<u32>::empty());
    loop
        invariant
            ","@.len() == 1,
            token_numbers(text@, Seq::empty()) == token_numbers(rest@, out@),
        decreases rest@.len(),
    {
        match find_str(&rest, ",", 0) {
            Some(i) => {
                let head = cut(&rest, 0, i);
                let tail = cut(&rest, i + 1, rest.len());
                assert(head@ =~= rest@.take(i as int));
                assert(tail@ =~= rest@.skip(i + 1));
                match parse_token(&head) {
                    Some(n) => {
                        out.push(n);
                        rest = tail;
                    },
                    None => {
                        return None;
                    },
                }
            },
            None => {
                return match parse_token(&rest) {
                    Some(n) => {
                        out.push(n);
                        Some(out)
                    },
                    None => None,
                };
            },
        }
    }
}

/// Whether the answer to a greeting will do: it greets, offers help, and is not empty.
pub fn hi_gate(text: &str, tokens: usize) -> (r: bool)
    ensures
        r == (contains(text@, "Hi!"@) && contains(text@, "help"@) && tokens > 0),
{
    let v = chars_of(text);
    has_str(&v, "Hi!") && has_str(&v, "help") && tokens > 0
}

/// The sum of two vectors of `n` elements, as a graph.
pub open spec fn add_recipe(n: usize) -> Step {
    given(given(no_nodes(), seq![n], DType::F32), seq![n], DType::F32).add_step(
        TensorId(0),
        TensorId(1),
    )
}

/// The graph of the sum of two vectors.
pub fn elem_add(n: usize) -> (r: (Graph, Result<TensorId, IrError>))
    ensures
        (r.0@, r.1) == add_recipe(n),
{
    let mut g: Graph = Graph::new();
    let a = g.input(vector_shape(n), DType::F32);
    let b = g.input(vector_shape(n), DType::F32);
    let out = g.add(a, b);
    (g, out)
}

/// The product of a matrix and a vector, as a graph.
pub open spec fn matvec_recipe(rows: usize, cols: usize) -> Step {
    given(
        given(no_nodes(), seq![rows, cols], DType::F32),
        seq![cols],
        DType::F32,
    ).matvec_step(TensorId(0), TensorId(1))
}

/// The graph of the product of a matrix and a vector: a product with every row, then the sums of
/// the rows.
pub fn matvec(rows: usize, cols: usize) -> (r: (Graph, Result<TensorId, IrError>))
    ensures
        (r.0@, r.1) == matvec_recipe(rows, cols),
{
    let mut g: Graph = Graph::new();
    let a = g.input(matrix_shape(rows, cols), DType::F32);
    let x = g.input(vector_shape(cols), DType::F32);
    match g.mul_broadcast_row(a, x) {
        Ok(ax) => {
            let out = g.sum_reduce(ax, 1);
            (g, out)
        },
        Err(e) => (g, Err(e)),
    }
}

} // verus!
