//! Texts of floating-point numbers, as `str::parse` accepts them.

use vstd::prelude::*;
use vstd::string::*;

use crate::codegen::beam::is_digit;
use crate::text::{
    cut, find, find_str, is_space, is_str, lemma_find, lower, lower_char, lowered, trim, trim_end,
    trim_start,
};

verus! {

/// Whether a text consists of decimal digits.
pub open spec fn all_digits(s: Seq<char>) -> bool {
    forall|i: int| 0 <= i < s.len() ==> is_digit(#[trigger] s[i])
}

fn has_digits(v: &Vec<char>) -> (r: bool)
    ensures
        r == all_digits(v@),
{
    let mut i: usize = 0;
    while i < v.len()
        invariant
            i <= v@.len(),
            forall|k: int| 0 <= k < i ==> is_digit(#[trigger] v@[k]),
        decreases v@.len() - i,
    {
        if !is_digit(v[i]) {
            assert(!is_digit(v@[i as int]));
            return false;
        }
        i += 1;
    }
    true
}

/// A text without a sign at its start.
pub open spec fn without_sign(s: Seq<char>) -> Seq<char> {
    if s.len() > 0 && (s[0] == '+' || s[0] == '-') {
        s.skip(1)
    } else {
        s
    }
}

fn skip_sign(v: &Vec<char>) -> (r: Vec<char>)
    ensures
        r@ == without_sign(v@),
{
    let r = if v.len() > 0 && (v[0] == '+' || v[0] == '-') {
        cut(v, 1, v.len())
    } else {
        cut(v, 0, v.len())
    };
    assert(r@ =~= without_sign(v@));
    r
}

/// Digits, at least one, with at most one point among them or at either end.
pub open spec fn is_mantissa(s: Seq<char>) -> bool {
    match find(s, "."@, 0) {
        None => s.len() > 0 && all_digits(s),
        Some(i) => s.len() > 1 && all_digits(s.take(i)) && all_digits(s.skip(i + 1)),
    }
}

fn mantissa(v: &Vec<char>) -> (r: bool)
    ensures
        r == is_mantissa(v@),
{
    proof {
        reveal_strlit(".");
    }
    match find_str(v, ".", 0) {
        None => v.len() > 0 && has_digits(v),
        Some(i) => {
            let a = cut(v, 0, i);
            let b = cut(v, i + 1, v.len());
            assert(a@ =~= v@.take(i as int));
            assert(b@ =~= v@.skip(i + 1));
            v.len() > 1 && has_digits(&a) && has_digits(&b)
        },
    }
}

/// A number without its sign, in lower case: a mantissa, and behind an `e` an exponent, a sign and
/// digits.
pub open spec fn is_magnitude(s: Seq<char>) -> bool {
    match find(s, "e"@, 0) {
        None => is_mantissa(s),
        Some(i) => {
            let e = without_sign(s.skip(i + 1));
            is_mantissa(s.take(i)) && e.len() > 0 && all_digits(e)
        },
    }
}

/// Whether `str::parse` reads a floating-point number from a text: a sign, and a magnitude,
/// infinity or no number, in letters of either case.
pub open spec fn is_number(s: Seq<char>) -> bool {
    let t = without_sign(lower(s));
    t == "inf"@ || t == "infinity"@ || t == "nan"@ || is_magnitude(t)
}

pub fn reads_as_number(v: &Vec<char>) -> (r: bool)
    ensures
        r == is_number(v@),
{
    proof {
        reveal_strlit("e");
    }
    let t = skip_sign(&lowered(v));
    if is_str(&t, "inf") || is_str(&t, "infinity") || is_str(&t, "nan") {
        return true;
    }
    match find_str(&t, "e", 0) {
        None => mantissa(&t),
        Some(i) => {
            let m = cut(&t, 0, i);
            let e = cut(&t, i + 1, t.len());
            assert(m@ =~= t@.take(i as int));
            assert(e@ =~= t@.skip(i + 1));
            let e = skip_sign(&e);
            mantissa(&m) && e.len() > 0 && has_digits(&e)
        },
    }
}

/// Whether a character can stand in a number in lower case.
spec fn in_number(ch: char) -> bool {
    '+' <= ch && ch <= 'z'
}

proof fn lemma_mantissa_chars(s: Seq<char>)
    requires
        is_mantissa(s),
    ensures
        forall|i: int| 0 <= i < s.len() ==> in_number(#[trigger] s[i]),
{
    reveal_strlit(".");
    lemma_find(s, "."@, 0);
    match find(s, "."@, 0) {
        None => {},
        Some(k) => {
            assert(s.subrange(k, k + 1)[0] == "."@[0]);
            assert forall|i: int| 0 <= i < s.len() implies in_number(#[trigger] s[i]) by {
                if i < k {
                    assert(s.take(k)[i] == s[i]);
                } else if i > k {
                    assert(s.skip(k + 1)[i - k - 1] == s[i]);
                }
            }
        },
    }
}

proof fn lemma_magnitude_chars(s: Seq<char>)
    requires
        is_magnitude(s),
    ensures
        forall|i: int| 0 <= i < s.len() ==> in_number(#[trigger] s[i]),
{
    reveal_strlit("e");
    lemma_find(s, "e"@, 0);
    match find(s, "e"@, 0) {
        None => lemma_mantissa_chars(s),
        Some(k) => {
            lemma_mantissa_chars(s.take(k));
            assert(s.subrange(k, k + 1)[0] == "e"@[0]);
            let rest = s.skip(k + 1);
            let e = without_sign(rest);
            assert forall|i: int| 0 <= i < s.len() implies in_number(#[trigger] s[i]) by {
                if i < k {
                    assert(s.take(k)[i] == s[i]);
                } else if i > k {
                    let j = i - k - 1;
                    assert(rest[j] == s[i]);
                    if e.len() < rest.len() {
                        if j > 0 {
                            assert(e[j - 1] == rest[j]);
                        }
                    } else {
                        assert(e[j] == rest[j]);
                    }
                }
            }
        },
    }
}

/// A number has no white space in it.
pub proof fn lemma_number_chars(s: Seq<char>)
    requires
        is_number(s),
    ensures
        s.len() > 0,
        forall|i: int| 0 <= i < s.len() ==> !is_space(#[trigger] s[i]) && s[i] != '\n',
{
    reveal_strlit("inf");
    reveal_strlit("infinity");
    reveal_strlit("nan");
    let low = lower(s);
    let t = without_sign(low);
    if is_magnitude(t) {
        lemma_magnitude_chars(t);
        lemma_find(t, "e"@, 0);
        reveal_strlit("e");
    }
    assert forall|i: int| 0 <= i < s.len() implies !is_space(#[trigger] s[i]) && s[i] != '\n' by {
        assert(low[i] == lower_char(s[i]));
        if t.len() < low.len() {
            if i > 0 {
                assert(t[i - 1] == low[i]);
            }
        } else {
            assert(t[i] == low[i]);
        }
        assert(in_number(low[i]));
    }
    assert(t.len() > 0);
}

/// A number stands as it is once white space around it is taken off.
pub proof fn lemma_number_trimmed(s: Seq<char>)
    requires
        is_number(s),
    ensures
        trim(s) == s,
        !s.contains('\n'),
{
    lemma_number_chars(s);
    assert(!is_space(s[0]) && !is_space(s[s.len() - 1]));
    assert(trim_start(s) == s);
    assert(trim_end(s) == s);
}

} // verus!
