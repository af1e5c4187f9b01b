//! Text as sequences of characters: decimal and hexadecimal numerals, and
//! conversion between strings and vectors of characters.

use vstd::prelude::*;
use vstd::string::*;

verus! {

/// `String::push` appends one character to the end of the string.
pub assume_specification[ String::push ](text: &mut String, letter: char)
    ensures
        final(text)@ == old(text)@.push(letter),
;

/// The decimal digit for `d`, which is below ten.
pub open spec fn digit(d: nat) -> char {
    if d == 0 {
        '0'
    } else if d == 1 {
        '1'
    } else if d == 2 {
        '2'
    } else if d == 3 {
        '3'
    } else if d == 4 {
        '4'
    } else if d == 5 {
        '5'
    } else if d == 6 {
        '6'
    } else if d == 7 {
        '7'
    } else if d == 8 {
        '8'
    } else {
        '9'
    }
}

/// The decimal numeral of `n`, without leading zeros.
pub open spec fn dec(n: nat) -> Seq<char>
    decreases n,
{
    if n < 10 {
        seq![digit(n)]
    } else {
        dec(n / 10).push(digit(n % 10))
    }
}

/// The lower-case hexadecimal digit for `d`, which is below sixteen.
pub open spec fn hex_digit(d: nat) -> char {
    if d < 10 {
        digit(d)
    } else if d == 10 {
        'a'
    } else if d == 11 {
        'b'
    } else if d == 12 {
        'c'
    } else if d == 13 {
        'd'
    } else if d == 14 {
        'e'
    } else {
        'f'
    }
}

/// The last `width` hexadecimal digits of `n`, zero-padded.
pub open spec fn hex(n: nat, width: nat) -> Seq<char>
    decreases width,
{
    if width == 0 {
        Seq::empty()
    } else {
        hex(n / 16, (width - 1) as nat).push(hex_digit(n % 16))
    }
}

pub fn digit_char(d: u64) -> (c: char)
    requires
        d < 10,
    ensures
        c == digit(d as nat),
{
    match d {
        0 => '0',
        1 => '1',
        2 => '2',
        3 => '3',
        4 => '4',
        5 => '5',
        6 => '6',
        7 => '7',
        8 => '8',
        _ => '9',
    }
}

pub fn hex_digit_char(d: u64) -> (c: char)
    requires
        d < 16,
    ensures
        c == hex_digit(d as nat),
{
    match d {
        10 => 'a',
        11 => 'b',
        12 => 'c',
        13 => 'd',
        14 => 'e',
        15 => 'f',
        _ => digit_char(d),
    }
}

/// Appends the decimal numeral of `n`.
pub fn push_dec(s: &mut String, n: u128)
    ensures
        final(s)@ == old(s)@ + dec(n as nat),
    decreases n,
{
    let ghost s0 = s@;
    if n < 10 {
        s.push(digit_char(n as u64));
        assert(s@ =~= s0 + seq![digit(n as nat)]);
    } else {
        push_dec(s, n / 10);
        s.push(digit_char((n % 10) as u64));
        assert(s@ =~= s0 + dec((n / 10) as nat).push(digit((n % 10) as nat)));
    }
}

/// The decimal numeral of `n`.
pub fn dec_text(n: u64) -> (r: String)
    ensures
        r@ == dec(n as nat),
{
    let mut s: String = String::new();
    push_dec(&mut s, n as u128);
    assert(Seq::<char>::empty() + dec(n as nat) =~= dec(n as nat));
    s
}

/// The decimal numeral of a sum.
pub fn dec_sum(a: usize, b: usize) -> (r: String)
    ensures
        r@ == dec((a + b) as nat),
{
    let mut s: String = String::new();
    push_dec(&mut s, (a as u128) + (b as u128));
    assert(Seq::<char>::empty() + dec((a + b) as nat) =~= dec((a + b) as nat));
    s
}

/// The decimal numeral of a length or an index.
pub fn dec_usize(n: usize) -> (r: String)
    ensures
        r@ == dec(n as nat),
{
    dec_text(n as u64)
}

fn push_hex(s: &mut String, n: u64, width: usize)
    ensures
        final(s)@ == old(s)@ + hex(n as nat, width as nat),
    decreases width,
{
    let ghost s0 = s@;
    if width == 0 {
        assert(s@ =~= s0 + hex(n as nat, 0));
    } else {
        push_hex(s, n / 16, width - 1);
        s.push(hex_digit_char(n % 16));
        assert(
            s@ =~= s0 + hex((n / 16) as nat, (width - 1) as nat).push(hex_digit((n % 16) as nat))
        );
    }
}

/// Sixteen hexadecimal digits of `n`.
pub fn hex16(n: u64) -> (r: String)
    ensures
        r@ == hex(n as nat, 16),
{
    let mut s: String = String::new();
    push_hex(&mut s, n, 16);
    assert(Seq::<char>::empty() + hex(n as nat, 16) =~= hex(n as nat, 16));
    s
}

/// The characters of a string.
pub fn chars_of(s: &str) -> (v: Vec<char>)
    ensures
        v@ == s@,
{
    let mut v: Vec<char> = Vec::new();
    for c in it: s.chars()
        invariant
            v@ == it.seq().take(it.index() as int),
            it.seq() == s@,
    {
        v.push(c);
    }
    v
}

/// The string made of the characters at `from..to`.
pub fn string_of(v: &Vec<char>, from: usize, to: usize) -> (s: String)
    requires
        from <= to <= v@.len(),
    ensures
        s@ == v@.subrange(from as int, to as int),
{
    let mut s: String = String::new();
    let mut i: usize = from;
    while i < to
        invariant
            from <= i <= to <= v@.len(),
            s@ == v@.subrange(from as int, i as int),
        decreases to - i,
    {
        s.push(v[i]);
        i += 1;
    }
    s
}

/// Whether a character is white space.
#[verifier::allow_in_spec]
pub fn is_space(ch: char) -> bool
    returns
        ('\u{9}' <= ch && ch <= '\u{d}') || ch == ' ' || ch == '\u{85}' || ch == '\u{a0}' || ch
            == '\u{1680}' || ('\u{2000}' <= ch && ch <= '\u{200a}') || ch == '\u{2028}' || ch
            == '\u{2029}' || ch == '\u{202f}' || ch == '\u{205f}' || ch == '\u{3000}',
{
    ('\u{9}' <= ch && ch <= '\u{d}') || ch == ' ' || ch == '\u{85}' || ch == '\u{a0}' || ch
        == '\u{1680}' || ('\u{2000}' <= ch && ch <= '\u{200a}') || ch == '\u{2028}' || ch
        == '\u{2029}' || ch == '\u{202f}' || ch == '\u{205f}' || ch == '\u{3000}'
}

/// A text without the white space at its start.
pub open spec fn trim_start(s: Seq<char>) -> Seq<char>
    decreases s.len(),
{
    if s.len() > 0 && is_space(s[0]) {
        trim_start(s.skip(1))
    } else {
        s
    }
}

/// A text without the white space at its end.
pub open spec fn trim_end(s: Seq<char>) -> Seq<char>
    decreases s.len(),
{
    if s.len() > 0 && is_space(s.last()) {
        trim_end(s.drop_last())
    } else {
        s
    }
}

/// A text without the white space around it.
pub open spec fn trim(s: Seq<char>) -> Seq<char> {
    trim_end(trim_start(s))
}

/// The characters at `from..to`.
pub fn cut(v: &Vec<char>, from: usize, to: usize) -> (r: Vec<char>)
    requires
        from <= to <= v@.len(),
    ensures
        r@ == v@.subrange(from as int, to as int),
{
    let mut r: Vec<char> = Vec::new();
    let mut i: usize = from;
    while i < to
        invariant
            from <= i <= to <= v@.len(),
            r@ == v@.subrange(from as int, i as int),
        decreases to - i,
    {
        r.push(v[i]);
        i += 1;
    }
    r
}

/// The whole text as a string.
pub fn text_of(v: &Vec<char>) -> (s: String)
    ensures
        s@ == v@,
{
    let s = string_of(v, 0, v.len());
    assert(v@.subrange(0, v@.len() as int) =~= v@);
    s
}

/// The text without the white space around it.
pub fn trimmed(v: &Vec<char>) -> (r: Vec<char>)
    ensures
        r@ == trim(v@),
{
    let mut a: usize = 0;
    assert(v@.skip(0) =~= v@);
    while a < v.len() && is_space(v[a])
        invariant
            a <= v@.len(),
            trim_start(v@) == trim_start(v@.skip(a as int)),
        decreases v@.len() - a,
    {
        assert(v@.skip(a as int).skip(1) =~= v@.skip(a + 1));
        a += 1;
    }
    let ghost t = v@.skip(a as int);
    assert(trim_start(v@) == t);
    let mut b: usize = v.len();
    assert(v@.subrange(a as int, b as int) =~= t);
    while b > a && is_space(v[b - 1])
        invariant
            a <= b <= v@.len(),
            trim_end(t) == trim_end(v@.subrange(a as int, b as int)),
        decreases b,
    {
        assert(v@.subrange(a as int, b as int).drop_last() =~= v@.subrange(a as int, b - 1));
        b -= 1;
    }
    cut(v, a, b)
}

/// The text of a string without the white space around it.
pub fn trim_str(s: &str) -> (r: String)
    ensures
        r@ == trim(s@),
{
    text_of(&trimmed(&chars_of(s)))
}

/// Whether `p` stands in `s` at `i`.
pub open spec fn occurs_at(s: Seq<char>, p: Seq<char>, i: int) -> bool {
    0 <= i && i + p.len() <= s.len() && s.subrange(i, i + p.len()) == p
}

/// The first place at or after `from` where `p` stands in `s`.
pub open spec fn find(s: Seq<char>, p: Seq<char>, from: int) -> Option<int>
    decreases s.len() + 1 - from,
{
    if from < 0 || from + p.len() > s.len() {
        None
    } else if occurs_at(s, p, from) {
        Some(from)
    } else {
        find(s, p, from + 1)
    }
}

/// Whether `p` stands somewhere in `s`.
pub open spec fn contains(s: Seq<char>, p: Seq<char>) -> bool {
    find(s, p, 0) is Some
}

/// What [`find`] finds: a place where `p` stands, and none before it; or `p` stands nowhere.
pub proof fn lemma_find(s: Seq<char>, p: Seq<char>, from: int)
    requires
        0 <= from,
    ensures
        match find(s, p, from) {
            Some(i) => from <= i && occurs_at(s, p, i) && forall|j: int|
                from <= j < i ==> !occurs_at(s, p, j),
            None => forall|j: int| from <= j ==> !occurs_at(s, p, j),
        },
    decreases s.len() + 1 - from,
{
    if from + p.len() > s.len() {
    } else if occurs_at(s, p, from) {
    } else {
        lemma_find(s, p, from + 1);
    }
}

/// Whether `p` stands in `v` at `i`.
pub fn is_at(v: &Vec<char>, p: &Vec<char>, i: usize) -> (r: bool)
    requires
        i <= v@.len(),
    ensures
        r == occurs_at(v@, p@, i as int),
{
    if p.len() > v.len() - i {
        return false;
    }
    let mut k: usize = 0;
    while k < p.len()
        invariant
            k <= p@.len(),
            i + p.len() <= v.len(),
            forall|j: int| 0 <= j < k ==> v@[i + j] == p@[j],
        decreases p@.len() - k,
    {
        if v[i + k] != p[k] {
            assert(v@.subrange(i as int, i + p@.len())[k as int] != p@[k as int]);
            return false;
        }
        k += 1;
    }
    assert(v@.subrange(i as int, i + p@.len()) =~= p@);
    true
}

/// The first place at or after `from` where `p` stands in `v`.
pub fn find_from(v: &Vec<char>, p: &Vec<char>, from: usize) -> (r: Option<usize>)
    requires
        from <= v@.len(),
    ensures
        match r {
            Some(i) => find(v@, p@, from as int) == Some(i as int) && from <= i && i + p@.len()
                <= v.len() && occurs_at(v@, p@, i as int),
            None => find(v@, p@, from as int) is None,
        },
{
    let mut i: usize = from;
    while i <= v.len() && p.len() <= v.len() - i
        invariant
            from <= i <= v@.len() + 1,
            v@.len() < usize::MAX || i <= v@.len(),
            find(v@, p@, from as int) == find(v@, p@, i as int),
        decreases v@.len() + 1 - i,
    {
        if is_at(v, p, i) {
            return Some(i);
        }
        if i == v.len() {
            assert(find(v@, p@, i + 1) is None);
            return None;
        }
        i += 1;
    }
    None
}

/// The first place where the string `p` stands in `v`.
pub fn find_str(v: &Vec<char>, p: &str, from: usize) -> (r: Option<usize>)
    requires
        from <= v@.len(),
    ensures
        match r {
            Some(i) => find(v@, p@, from as int) == Some(i as int) && from <= i && i + p@.len()
                <= v.len() && occurs_at(v@, p@, i as int),
            None => find(v@, p@, from as int) is None,
        },
{
    find_from(v, &chars_of(p), from)
}

/// Whether the string `p` stands somewhere in `v`.
pub fn has_str(v: &Vec<char>, p: &str) -> (r: bool)
    ensures
        r == contains(v@, p@),
{
    find_str(v, p, 0).is_some()
}

/// Whether `v` is the string `p`.
pub fn is_str(v: &Vec<char>, p: &str) -> (r: bool)
    ensures
        r == (v@ == p@),
{
    let q = chars_of(p);
    if v.len() != q.len() {
        return false;
    }
    let r = is_at(v, &q, 0);
    assert(v@.subrange(0, q@.len() as int) =~= v@);
    r
}

/// Whether `s` begins with `p`.
pub open spec fn starts_with(s: Seq<char>, p: Seq<char>) -> bool {
    occurs_at(s, p, 0)
}

pub fn starts_with_str(v: &Vec<char>, p: &str) -> (r: bool)
    ensures
        r == starts_with(v@, p@),
{
    is_at(v, &chars_of(p), 0)
}

/// Whether `s` ends in `p`.
pub open spec fn ends_with(s: Seq<char>, p: Seq<char>) -> bool {
    occurs_at(s, p, s.len() - p.len())
}

pub fn ends_with_str(v: &Vec<char>, p: &str) -> (r: bool)
    ensures
        r == ends_with(v@, p@),
{
    let q = chars_of(p);
    if q.len() > v.len() {
        false
    } else {
        is_at(v, &q, v.len() - q.len())
    }
}

/// An ASCII letter in lower case; any other character as it is.
pub open spec fn lower_char(ch: char) -> char {
    if 'A' <= ch && ch <= 'Z' {
        (ch as u32 + 32) as char
    } else {
        ch
    }
}

/// A text with its ASCII letters in lower case.
pub open spec fn lower(s: Seq<char>) -> Seq<char> {
    s.map_values(|ch: char| lower_char(ch))
}

fn lower_letter(ch: char) -> (r: char)
    ensures
        r == lower_char(ch),
{
    if 'A' <= ch && ch <= 'Z' {
        ((ch as u8) + 32) as char
    } else {
        ch
    }
}

pub fn lowered(v: &Vec<char>) -> (r: Vec<char>)
    ensures
        r@ == lower(v@),
{
    let mut r: Vec<char> = Vec::new();
    let mut i: usize = 0;
    while i < v.len()
        invariant
            i <= v@.len(),
            r@ == lower(v@.take(i as int)),
        decreases v@.len() - i,
    {
        r.push(lower_letter(v[i]));
        assert(r@ =~= lower(v@.take(i + 1)));
        i += 1;
    }
    assert(v@.take(v@.len() as int) =~= v@);
    r
}

/// The texts one after the other, with `sep` between them.
pub open spec fn join(parts: Seq<Seq<char>>, sep: Seq<char>) -> Seq<char>
    decreases parts.len(),
{
    if parts.len() == 0 {
        Seq::empty()
    } else if parts.len() == 1 {
        parts[0]
    } else {
        join(parts.drop_last(), sep) + sep + parts.last()
    }
}

/// The texts of strings.
pub open spec fn texts(v: Seq<String>) -> Seq<Seq<char>> {
    v.map_values(|s: String| s@)
}

pub fn join_strings(parts: &Vec<String>, sep: &str) -> (r: String)
    ensures
        r@ == join(texts(parts@), sep@),
{
    let ghost all = texts(parts@);
    let mut r: String = String::new();
    let mut i: usize = 0;
    while i < parts.len()
        invariant
            i <= parts@.len(),
            all == texts(parts@),
            r@ == join(all.take(i as int), sep@),
        decreases parts@.len() - i,
    {
        let ghost t = all.take(i + 1);
        assert(t.drop_last() =~= all.take(i as int));
        assert(t.last() == parts@[i as int]@);
        if i > 0 {
            r = r.concat(sep);
        } else {
            assert(Seq::<char>::empty() + parts@[0]@ =~= parts@[0]@);
        }
        r = r.concat(parts[i].as_str());
        i += 1;
    }
    assert(all.take(all.len() as int) =~= all);
    r
}

} // verus!
