//! The search for tilings: candidates, the choice between them, and the text under which a
//! choice is kept.

use std::collections::hash_map::DefaultHasher;
use std::hash::Hasher;

use vstd::bytes::{spec_u64_to_le_bytes, u64_to_le_bytes};
use vstd::prelude::*;
use vstd::std_specs::hash::*;
use vstd::string::*;

use crate::codegen::lower::kernels::sched_fits;
use crate::codegen::lower::matvec::sched_ok;
use crate::codegen::render::kernel::MetalKernelSource;
use crate::decimal::{is_number, lemma_number_trimmed, reads_as_number};
use crate::ir::kernel::OptSchedule;
use crate::text::{
    chars_of, cut, dec, dec_text, dec_usize, digit, find, find_str, hex, hex16, is_space, is_str,
    text_of, trim, trim_start, trimmed,
};

verus! {

/// A tiling that was kept, with its time in milliseconds as it was written.
#[derive(Clone, Debug)]
pub struct BeamCacheEntry {
    pub schedule: OptSchedule,
    pub ms: String,
}

/// The outcome of a search. Times are ordered numbers: the bit patterns of non-negative
/// floating-point milliseconds order as the milliseconds do.
#[derive(Clone, Debug)]
pub struct BeamSearchResult {
    pub schedule: OptSchedule,
    pub ms: u64,
    pub from_cache: bool,
    pub kernel: MetalKernelSource,
}

/// The power of two with this exponent, for the exponents of the candidates.
#[verifier::allow_in_spec]
pub fn width(e: u32) -> u32
    returns
        (if e == 0 {
            1u32
        } else if e == 1 {
            2u32
        } else {
            4u32
        }),
{
    if e == 0 {
        1
    } else if e == 1 {
        2
    } else {
        4
    }
}

/// Candidate `i` for a dense product: threads per group change slowest, unrolling fastest.
pub open spec fn dense_candidate(i: int) -> OptSchedule {
    OptSchedule {
        tg: (32 * width((i / 9) as u32)) as u64,
        vec: width((i / 3 % 3) as u32),
        unroll: width((i % 3) as u32),
        nsg: 2,
        nr0: 4,
    }
}

/// Tilings to try for a dense matrix-vector product.
pub fn beam_matvec_candidates() -> (r: Vec<OptSchedule>)
    ensures
        r@ == Seq::new(27, |i: int| dense_candidate(i)),
{
    let mut out: Vec<OptSchedule> = Vec::new();
    let mut i: u32 = 0;
    while i < 27
        invariant
            i <= 27,
            out@.len() == i,
            forall|k: int| 0 <= k < i ==> out@[k] == dense_candidate(k),
        decreases 27 - i,
    {
        out.push(
            OptSchedule {
                tg: (32 * width(i / 9)) as u64,
                vec: width(i / 3 % 3),
                unroll: width(i % 3),
                nsg: 2,
                nr0: 4,
            },
        );
        i += 1;
    }
    out
}

/// Candidate `i` for packed weights: simdgroups change slowest, rows per group fastest.
pub open spec fn packed_candidate(i: int) -> OptSchedule {
    OptSchedule {
        tg: (32 * width((i / 3) as u32)) as u64,
        vec: 1,
        unroll: 1,
        nsg: width((i / 3) as u32),
        nr0: (2 * width((i % 3) as u32)) as u32,
    }
}

/// Tilings to try for packed Q4_K weights.
pub fn beam_matvec_q4k_candidates() -> (r: Vec<OptSchedule>)
    ensures
        r@ == Seq::new(9, |i: int| packed_candidate(i)),
{
    let mut out: Vec<OptSchedule> = Vec::new();
    let mut i: u32 = 0;
    while i < 9
        invariant
            i <= 9,
            out@.len() == i,
            forall|k: int| 0 <= k < i ==> out@[k] == packed_candidate(k),
        decreases 9 - i,
    {
        out.push(
            OptSchedule {
                tg: (32 * width(i / 3)) as u64,
                vec: 1,
                unroll: 1,
                nsg: width(i / 3),
                nr0: 2 * width(i % 3),
            },
        );
        i += 1;
    }
    out
}

/// Every candidate is a tiling that kernels can be written for.
pub proof fn lemma_candidates_ok(i: int)
    ensures
        0 <= i < 27 ==> sched_ok(dense_candidate(i)) && sched_fits(dense_candidate(i)),
        0 <= i < 9 ==> sched_ok(packed_candidate(i)) && sched_fits(packed_candidate(i)),
{
}

/// Whether `v` lists exactly the values of `s`, in order and each once.
pub open spec fn sorted_values(v: Seq<u64>, s: Seq<u64>) -> bool {
    &&& forall|i: int, j: int| 0 <= i < j < v.len() ==> v[i] < v[j]
    &&& forall|i: int| 0 <= i < v.len() ==> s.contains(#[trigger] v[i])
    &&& forall|i: int| 0 <= i < s.len() ==> v.contains(#[trigger] s[i])
}

/// The threads per group that the candidates use, in order and each once.
pub fn beam_tg_candidates(rows: usize) -> (r: Vec<u64>)
    ensures
        sorted_values(r@, Seq::new(27, |i: int| dense_candidate(i).tg)),
        r@ == seq![32u64, 64, 128],
{
    let v = vec![32u64, 64, 128];
    proof {
        let s = Seq::new(27, |i: int| dense_candidate(i).tg);
        assert(s[0] == 32 && s[9] == 64 && s[18] == 128);
        assert forall|i: int| 0 <= i < 3 implies s.contains(#[trigger] v@[i]) by {
            assert(s[9 * i] == v@[i]);
        }
        assert forall|i: int| 0 <= i < s.len() implies v@.contains(#[trigger] s[i]) by {
            assert(0 <= i / 9 < 3);
            assert(s[i] == v@[i / 9]);
        }
        assert(v@ =~= seq![32u64, 64, 128]);
    }
    v
}

/// The choice among candidates: the first that no other beats, if any took less than the
/// greatest time there is; else none.
pub open spec fn fastest(times: Seq<u64>, k: int) -> bool {
    &&& 0 <= k < times.len()
    &&& times[k] < u64::MAX
    &&& forall|j: int| 0 <= j < times.len() ==> times[k] <= #[trigger] times[j]
    &&& forall|j: int| 0 <= j < k ==> times[k] < #[trigger] times[j]
}

/// Chooses the fastest candidate.
pub fn choose_fastest(times: &Vec<u64>) -> (r: Option<usize>)
    ensures
        match r {
            Some(k) => fastest(times@, k as int),
            None => forall|j: int| 0 <= j < times@.len() ==> times@[j] == u64::MAX,
        },
{
    let mut best: Option<usize> = None;
    let mut least: u64 = u64::MAX;
    let mut i: usize = 0;
    while i < times.len()
        invariant
            i <= times@.len(),
            match best {
                Some(k) => {
                    &&& k < i
                    &&& times@[k as int] == least
                    &&& least < u64::MAX
                    &&& forall|j: int| 0 <= j < i ==> least <= #[trigger] times@[j]
                    &&& forall|j: int| 0 <= j < k ==> least < #[trigger] times@[j]
                },
                None => least == u64::MAX && forall|j: int|
                    0 <= j < i ==> #[trigger] times@[j] == u64::MAX,
            },
        decreases times@.len() - i,
    {
        if times[i] < least {
            least = times[i];
            best = Some(i);
        }
        i += 1;
    }
    best
}

/// Where tilings are kept: the given directory, or one under the home directory, or one beside
/// the program.
pub open spec fn cache_dir_of(dir: Option<Seq<char>>, home: Option<Seq<char>>) -> Seq<char> {
    match dir {
        Some(d) => d,
        None => match home {
            Some(h) => joined(joined(joined(h, ".cache"@), "ksearch"@), "beam"@),
            None => ".ksearch_beam_cache"@,
        },
    }
}

/// A path with a relative component behind it.
pub open spec fn joined(path: Seq<char>, part: Seq<char>) -> Seq<char> {
    if path.len() == 0 {
        part
    } else if path.last() == '/' {
        path + part
    } else {
        path.push('/') + part
    }
}

pub fn join_path(path: &str, part: &str) -> (r: String)
    ensures
        r@ == joined(path@, part@),
{
    let v = chars_of(path);
    if v.len() == 0 {
        String::from_str(part)
    } else if v[v.len() - 1] == '/' {
        String::from_str(path).concat(part)
    } else {
        let mut s: String = String::from_str(path);
        s.push('/');
        s.concat(part)
    }
}

pub open spec fn opt_text(s: Option<&str>) -> Option<Seq<char>> {
    match s {
        Some(t) => Some(t@),
        None => None,
    }
}

/// The directory for kept tilings, from the values of `KSEARCH_BEAM_CACHE` and `HOME`.
pub fn beam_cache_dir(dir: Option<&str>, home: Option<&str>) -> (r: String)
    ensures
        r@ == cache_dir_of(opt_text(dir), opt_text(home)),
{
    match dir {
        Some(d) => String::from_str(d),
        None => dirs_fallback(home),
    }
}

/// The directory for kept tilings where none is named.
pub fn dirs_fallback(home: Option<&str>) -> (r: String)
    ensures
        r@ == cache_dir_of(None, opt_text(home)),
{
    match home {
        Some(h) => {
            let a = join_path(h, ".cache");
            let b = join_path(a.as_str(), "ksearch");
            join_path(b.as_str(), "beam")
        },
        None => String::from_str(".ksearch_beam_cache"),
    }
}

/// What hashing a string feeds to the hasher: its bytes and one that no text holds.
pub open spec fn feed_text(fed: Seq<Seq<u8>>, s: &str) -> Seq<Seq<u8>> {
    fed.push(s.spec_bytes()).push(seq![0xffu8])
}

/// What hashing numbers feeds to the hasher: eight bytes for each.
pub open spec fn feed_numbers(fed: Seq<Seq<u8>>, dims: Seq<usize>) -> Seq<Seq<u8>>
    decreases dims.len(),
{
    if dims.len() == 0 {
        fed
    } else {
        feed_numbers(fed, dims.drop_last()).push(spec_u64_to_le_bytes(dims.last() as u64))
    }
}

/// The hash of a kind of kernel, its dimensions and the chip.
pub open spec fn plan_hash(kind: &str, dims: Seq<usize>, chip: &str) -> u64 {
    DefaultHasher::spec_finish(
        feed_text(feed_numbers(feed_text(Seq::empty(), kind), dims), chip),
    )
}

fn hash_text(h: &mut DefaultHasher, s: &str)
    ensures
        final(h)@ == feed_text(old(h)@, s),
{
    h.write(s.as_bytes());
    let end = vec![0xffu8];
    assert(end@ =~= seq![0xffu8]);
    h.write(end.as_slice());
}

/// Hashes a kind of kernel, its dimensions and the chip.
pub fn hash_plan(kind: &str, dims: &Vec<usize>, chip: &str) -> (r: u64)
    ensures
        r == plan_hash(kind, dims@, chip),
{
    let mut h: DefaultHasher = DefaultHasher::new();
    hash_text(&mut h, kind);
    let ghost start = h@;
    let mut i: usize = 0;
    assert(dims@.take(0) =~= Seq::<usize>::empty());
    while i < dims.len()
        invariant
            i <= dims@.len(),
            h@ == feed_numbers(start, dims@.take(i as int)),
        decreases dims@.len() - i,
    {
        let bytes = u64_to_le_bytes(dims[i] as u64);
        h.write(bytes.as_slice());
        assert(dims@.take(i + 1).drop_last() =~= dims@.take(i as int));
        i += 1;
    }
    assert(dims@.take(dims@.len() as int) =~= dims@);
    hash_text(&mut h, chip);
    h.finish()
}

/// The key under which the tiling of a product is kept.
pub fn beam_cache_key(op: &str, rows: usize, cols: usize, chip: &str) -> (r: String)
    ensures
        r@ == op@ + "_"@ + dec(rows as nat) + "x"@ + dec(cols as nat) + "_"@ + hex(
            plan_hash(op, seq![rows, cols], chip) as nat,
            16,
        ),
{
    let mut dims: Vec<usize> = Vec::new();
    dims.push(rows);
    dims.push(cols);
    assert(dims@ =~= seq![rows, cols]);
    let h: u64 = hash_plan(op, &dims, chip);
    String::from_str(op).concat("_").concat(dec_usize(rows).as_str()).concat("x").concat(
        dec_usize(cols).as_str(),
    ).concat("_").concat(hex16(h).as_str())
}

/// The numbers of a kept tiling as far as they were read.
pub ghost struct EntryV {
    pub tg: Option<u64>,
    pub vec: Option<u32>,
    pub unroll: Option<u32>,
    pub nsg: Option<u32>,
    pub nr0: Option<u32>,
    pub ms: Option<Seq<char>>,
}

/// The number that decimal digits stand for.
pub open spec fn digits_value(s: Seq<char>) -> nat
    decreases s.len(),
{
    if s.len() == 0 {
        0
    } else {
        digits_value(s.drop_last()) * 10 + (s.last() as u32 - '0' as u32) as nat
    }
}

#[verifier::allow_in_spec]
pub fn is_digit(ch: char) -> bool
    returns
        '0' <= ch && ch <= '9',
{
    '0' <= ch && ch <= '9'
}

/// A text without a plus sign at its start.
pub open spec fn unsigned(s: Seq<char>) -> Seq<char> {
    if s.len() > 0 && s[0] == '+' {
        s.skip(1)
    } else {
        s
    }
}

/// The whole number that a text stands for: an optional plus sign and digits, at most `max`.
pub open spec fn number(s: Seq<char>, max: nat) -> Option<nat> {
    let d = unsigned(s);
    if d.len() > 0 && (forall|i: int| 0 <= i < d.len() ==> is_digit(#[trigger] d[i]))
        && digits_value(d) <= max {
        Some(digits_value(d))
    } else {
        None
    }
}

proof fn lemma_digits_grow(s: Seq<char>, i: int)
    requires
        0 <= i <= s.len(),
        forall|k: int| 0 <= k < s.len() ==> is_digit(#[trigger] s[k]),
    ensures
        digits_value(s.take(i)) <= digits_value(s),
    decreases s.len() - i,
{
    if i < s.len() {
        lemma_digits_grow(s, i + 1);
        assert(s.take(i + 1).drop_last() =~= s.take(i));
        let d = (s[i] as u32 - '0' as u32) as nat;
        assert(digits_value(s.take(i + 1)) == digits_value(s.take(i)) * 10 + d);
    } else {
        assert(s.take(i) =~= s);
    }
}

/// Reads a whole number.
pub fn parse_number(v: &Vec<char>, max: u64) -> (r: Option<u64>)
    ensures
        match r {
            Some(n) => number(v@, max as nat) == Some(n as nat) && n <= max,
            None => number(v@, max as nat) is None,
        },
{
    let d = if v.len() > 0 && v[0] == '+' {
        let t = cut(v, 1, v.len());
        assert(t@ =~= v@.skip(1));
        t
    } else {
        cut(v, 0, v.len())
    };
    assert(d@ =~= unsigned(v@));
    if d.len() == 0 {
        return None;
    }
    let mut i: usize = 0;
    while i < d.len()
        invariant
            i <= d@.len(),
            d@ == unsigned(v@),
            forall|k: int| 0 <= k < i ==> is_digit(#[trigger] d@[k]),
        decreases d@.len() - i,
    {
        if !is_digit(d[i]) {
            assert(!is_digit(d@[i as int]));
            return None;
        }
        i += 1;
    }
    let mut n: u64 = 0;
    let mut j: usize = 0;
    assert(d@.take(0) =~= Seq::<char>::empty());
    while j < d.len()
        invariant
            j <= d@.len(),
            d@ == unsigned(v@),
            forall|k: int| 0 <= k < d@.len() ==> is_digit(#[trigger] d@[k]),
            n == digits_value(d@.take(j as int)),
            n <= max,
        decreases d@.len() - j,
    {
        let ghost t = d@.take(j + 1);
        proof {
            assert(t.drop_last() =~= d@.take(j as int));
            lemma_digits_grow(d@, j + 1);
            assert(is_digit(d@[j as int]));
        }
        let digit_value: u64 = (d[j] as u32 - '0' as u32) as u64;
        assert(digits_value(t) == n * 10 + digit_value);
        let wide: u128 = (n as u128) * 10 + (digit_value as u128);
        if wide > max as u128 {
            return None;
        }
        n = wide as u64;
        j += 1;
    }
    assert(d@.take(d@.len() as int) =~= d@);
    Some(n)
}

fn parse_small(v: &Vec<char>) -> (r: Option<u32>)
    ensures
        r == small(v@),
{
    match parse_number(v, u32::MAX as u64) {
        Some(n) => Some(n as u32),
        None => None,
    }
}

/// A number of 32 bits.
pub open spec fn small(s: Seq<char>) -> Option<u32> {
    match number(s, u32::MAX as nat) {
        Some(n) => Some(n as u32),
        None => None,
    }
}

/// A number of 64 bits.
pub open spec fn large(s: Seq<char>) -> Option<u64> {
    match number(s, u64::MAX as nat) {
        Some(n) => Some(n as u64),
        None => None,
    }
}

impl EntryV {
    /// What one line adds: a later line for a key replaces an earlier one.
    pub open spec fn set_key(self, key: Seq<char>, value: Seq<char>) -> EntryV {
        if key == "tg"@ {
            EntryV { tg: large(value), ..self }
        } else if key == "vec"@ {
            EntryV { vec: small(value), ..self }
        } else if key == "unroll"@ {
            EntryV { unroll: small(value), ..self }
        } else if key == "nsg"@ {
            EntryV { nsg: small(value), ..self }
        } else if key == "nr0"@ {
            EntryV { nr0: small(value), ..self }
        } else if key == "ms"@ {
            EntryV {
                ms: if is_number(value) {
                    Some(value)
                } else {
                    None
                },
                ..self
            }
        } else {
            self
        }
    }

    /// The tiling, if all that it needs was there.
    pub open spec fn entry(self) -> Option<(OptSchedule, Seq<char>)> {
        match (self.tg, self.vec, self.unroll, self.ms) {
            (Some(tg), Some(vec), Some(unroll), Some(ms)) => Some(
                (
                    OptSchedule {
                        tg,
                        vec,
                        unroll,
                        nsg: match self.nsg {
                            Some(n) => n,
                            None => 2,
                        },
                        nr0: match self.nr0 {
                            Some(n) => n,
                            None => 4,
                        },
                    },
                    ms,
                ),
            ),
            _ => None,
        }
    }
}

/// Nothing read yet.
pub open spec fn no_entry() -> EntryV {
    EntryV { tg: None, vec: None, unroll: None, nsg: None, nr0: None, ms: None }
}

/// The first line of a text.
pub open spec fn first_line(s: Seq<char>) -> Seq<char> {
    match find(s, "\n"@, 0) {
        Some(i) => s.take(i),
        None => s,
    }
}

/// What stands behind the first line of a text.
pub open spec fn after_line(s: Seq<char>) -> Seq<char> {
    match find(s, "\n"@, 0) {
        Some(i) => s.skip(i + 1),
        None => Seq::empty(),
    }
}

/// What the lines of a text add. None if a line has no equals sign.
pub open spec fn read_lines(s: Seq<char>, e: EntryV) -> Option<EntryV>
    decreases s.len(),
{
    if s.len() == 0 {
        Some(e)
    } else {
        let line = first_line(s);
        match find(line, "="@, 0) {
            None => None,
            Some(i) => if after_line(s).len() < s.len() {
                read_lines(after_line(s), e.set_key(trim(line.take(i)), trim(line.skip(i + 1))))
            } else {
                None
            },
        }
    }
}

/// The tiling and the time that a text keeps.
pub open spec fn kept(s: Seq<char>) -> Option<(OptSchedule, Seq<char>)> {
    match read_lines(s, no_entry()) {
        Some(e) => e.entry(),
        None => None,
    }
}

/// Reads a kept tiling: lines of `key=value`.
pub fn load_beam_cache(text: &str) -> (r: Option<BeamCacheEntry>)
    ensures
        match r {
            Some(e) => kept(text@) == Some((e.schedule, e.ms@)),
            None => kept(text@) is None,
        },
{
    proof {
        reveal_strlit("\n");
        reveal_strlit("=");
    }
    let mut tg: Option<u64> = None;
    let mut vec: Option<u32> = None;
    let mut unroll: Option<u32> = None;
    let mut nsg: Option<u32> = None;
    let mut nr0: Option<u32> = None;
    let mut ms: Option<Vec<char>> = None;
    let mut rest: Vec<char> = chars_of(text);
    let ghost mut e = no_entry();
    while rest.len() > 0
        invariant
            "\n"@.len() == 1,
            "="@.len() == 1,
            e == (EntryV {
                tg,
                vec,
                unroll,
                nsg,
                nr0,
                ms: match ms {
                    Some(v) => Some(v@),
                    None => None,
                },
            }),
            read_lines(text@, no_entry()) == read_lines(rest@, e),
        decreases rest@.len(),
    {
        let (line, tail) = match find_str(&rest, "\n", 0) {
            Some(i) => {
                let a = cut(&rest, 0, i);
                let b = cut(&rest, i + 1, rest.len());
                assert(a@ =~= rest@.take(i as int));
                assert(b@ =~= rest@.skip(i + 1));
                (a, b)
            },
            None => {
                let a = cut(&rest, 0, rest.len());
                assert(a@ =~= rest@);
                let b: Vec<char> = Vec::new();
                (a, b)
            },
        };
        assert(line@ == first_line(rest@));
        assert(tail@ =~= after_line(rest@));
        match find_str(&line, "=", 0) {
            None => {
                return None;
            },
            Some(i) => {
                let a = cut(&line, 0, i);
                let b = cut(&line, i + 1, line.len());
                assert(a@ =~= line@.take(i as int));
                assert(b@ =~= line@.skip(i + 1));
                let key = trimmed(&a);
                let value = trimmed(&b);
                proof {
                    e = e.set_key(key@, value@);
                }
                if is_str(&key, "tg") {
                    tg = parse_number(&value, u64::MAX);
                } else if is_str(&key, "vec") {
                    vec = parse_small(&value);
                } else if is_str(&key, "unroll") {
                    unroll = parse_small(&value);
                } else if is_str(&key, "nsg") {
                    nsg = parse_small(&value);
                } else if is_str(&key, "nr0") {
                    nr0 = parse_small(&value);
                } else if is_str(&key, "ms") {
                    ms = if reads_as_number(&value) {
                        Some(value)
                    } else {
                        None
                    };
                }
                rest = tail;
            },
        }
    }
    match (tg, vec, unroll, ms) {
        (Some(tg), Some(vec), Some(unroll), Some(ms)) => Some(
            BeamCacheEntry {
                schedule: OptSchedule {
                    tg,
                    vec,
                    unroll,
                    nsg: match nsg {
                        Some(n) => n,
                        None => 2,
                    },
                    nr0: match nr0 {
                        Some(n) => n,
                        None => 4,
                    },
                },
                ms: text_of(&ms),
            },
        ),
        _ => None,
    }
}

/// One line of a kept tiling.
pub open spec fn line_text(key: Seq<char>, value: Seq<char>) -> Seq<char> {
    key + "="@ + value + "\n"@
}

/// The text that keeps a tiling and its time.
pub open spec fn kept_text(s: OptSchedule, ms: Seq<char>) -> Seq<char> {
    line_text("tg"@, dec(s.tg as nat)) + (line_text("vec"@, dec(s.vec as nat)) + (line_text(
        "unroll"@,
        dec(s.unroll as nat),
    ) + (line_text("nsg"@, dec(s.nsg as nat)) + (line_text("nr0"@, dec(s.nr0 as nat)) + (line_text(
        "ms"@,
        ms,
    ) + Seq::empty())))))
}

fn write_line(key: &str, value: &str) -> (r: String)
    ensures
        r@ == line_text(key@, value@),
{
    String::from_str(key).concat("=").concat(value).concat("\n")
}

/// Writes a tiling to be kept.
pub fn save_beam_cache(entry: &BeamCacheEntry) -> (r: String)
    ensures
        r@ == kept_text(entry.schedule, entry.ms@),
{
    let s = &entry.schedule;
    let r = write_line("tg", dec_text(s.tg).as_str()).concat(
        write_line("vec", dec_text(s.vec as u64).as_str()).as_str(),
    ).concat(write_line("unroll", dec_text(s.unroll as u64).as_str()).as_str()).concat(
        write_line("nsg", dec_text(s.nsg as u64).as_str()).as_str(),
    ).concat(write_line("nr0", dec_text(s.nr0 as u64).as_str()).as_str()).concat(
        write_line("ms", entry.ms.as_str()).as_str(),
    );
    assert(r@ =~= kept_text(entry.schedule, entry.ms@));
    r
}

proof fn lemma_digit(d: nat)
    requires
        d < 10,
    ensures
        is_digit(digit(d)),
        digit(d) as u32 - '0' as u32 == d,
        !is_space(digit(d)),
        digit(d) != '\n',
        digit(d) != '=',
        digit(d) != '+',
{
}

/// A numeral holds digits only and stands for its number.
pub proof fn lemma_dec(n: nat)
    ensures
        dec(n).len() > 0,
        forall|i: int|
            0 <= i < dec(n).len() ==> is_digit(#[trigger] dec(n)[i]) && !is_space(dec(n)[i])
                && dec(n)[i] != '\n' && dec(n)[i] != '=' && dec(n)[i] != '+',
        digits_value(dec(n)) == n,
    decreases n,
{
    if n < 10 {
        lemma_digit(n);
        let s = dec(n);
        assert(s.drop_last() =~= Seq::<char>::empty());
        assert(s.last() == digit(n));
        assert(digits_value(s.drop_last()) == 0);
    } else {
        lemma_dec(n / 10);
        lemma_digit(n % 10);
        let s = dec(n);
        assert(s.drop_last() =~= dec(n / 10));
        assert(s.last() == digit(n % 10));
    }
}

/// Two different numbers have different numerals.
pub proof fn lemma_dec_injective(a: nat, b: nat)
    requires
        dec(a) == dec(b),
    ensures
        a == b,
{
    lemma_dec(a);
    lemma_dec(b);
}

/// Reading a numeral gives back the number.
pub proof fn lemma_number_of_dec(n: nat, max: nat)
    requires
        n <= max,
    ensures
        number(dec(n), max) == Some(n),
{
    lemma_dec(n);
    assert(dec(n)[0] != '+');
}

/// The first place of a character, where what stands before it does not hold it.
proof fn lemma_find_char_from(s: Seq<char>, p: Seq<char>, from: int, k: int)
    requires
        p.len() == 1,
        0 <= from <= k < s.len(),
        s[k] == p[0],
        forall|i: int| from <= i < k ==> s[i] != p[0],
    ensures
        find(s, p, from) == Some(k),
    decreases k - from,
{
    assert(s.subrange(from, from + 1)[0] == s[from]);
    if from == k {
        assert(s.subrange(k, k + 1) =~= p);
    } else {
        lemma_find_char_from(s, p, from + 1, k);
    }
}

proof fn lemma_find_char(a: Seq<char>, p: Seq<char>, b: Seq<char>)
    requires
        p.len() == 1,
        forall|i: int| 0 <= i < a.len() ==> a[i] != p[0],
    ensures
        find(a + p + b, p, 0) == Some(a.len() as int),
{
    lemma_find_char_from(a + p + b, p, 0, a.len() as int);
}

/// Reading what was written as one line adds that key and value and goes on behind it.
proof fn lemma_line(key: Seq<char>, value: Seq<char>, rest: Seq<char>, e: EntryV)
    requires
        forall|i: int| 0 <= i < key.len() ==> key[i] != '=' && key[i] != '\n',
        forall|i: int| 0 <= i < value.len() ==> value[i] != '\n',
        trim(key) == key,
        trim(value) == value,
    ensures
        read_lines(line_text(key, value) + rest, e) == read_lines(rest, e.set_key(key, value)),
{
    reveal_strlit("\n");
    reveal_strlit("=");
    let line = key + "="@ + value;
    let s = line_text(key, value) + rest;
    assert(s =~= line + "\n"@ + rest);
    lemma_find_char(line, "\n"@, rest);
    assert(first_line(s) =~= line);
    assert(after_line(s) =~= rest);
    lemma_find_char(key, "="@, value);
    assert(line.take(key.len() as int) =~= key);
    assert(line.skip((key.len() + 1) as int) =~= value);
    assert(s.len() > rest.len());
}

/// A text without white space is its own trimmed form.
proof fn lemma_trim_same(s: Seq<char>)
    requires
        s.len() > 0 ==> !is_space(s[0]) && !is_space(s.last()),
    ensures
        trim(s) == s,
{
    assert(trim_start(s) == s);
}

proof fn lemma_key_ok(k: Seq<char>)
    requires
        k == "tg"@ || k == "vec"@ || k == "unroll"@ || k == "nsg"@ || k == "nr0"@ || k == "ms"@,
    ensures
        forall|i: int| 0 <= i < k.len() ==> k[i] != '=' && k[i] != '\n',
        trim(k) == k,
{
    reveal_strlit("tg");
    reveal_strlit("vec");
    reveal_strlit("unroll");
    reveal_strlit("nsg");
    reveal_strlit("nr0");
    reveal_strlit("ms");
    lemma_trim_same(k);
}

proof fn lemma_dec_line(n: nat)
    ensures
        forall|i: int| 0 <= i < dec(n).len() ==> dec(n)[i] != '\n',
        trim(dec(n)) == dec(n),
{
    lemma_dec(n);
    assert(!is_space(dec(n)[0]));
    assert(!is_space(dec(n)[dec(n).len() - 1]));
    lemma_trim_same(dec(n));
}

/// Reading what was written to be kept gives back the tiling and the time, whatever number the
/// time is.
pub proof fn lemma_kept_text_reads_back(s: OptSchedule, ms: Seq<char>)
    requires
        is_number(ms),
    ensures
        kept(kept_text(s, ms)) == Some((s, ms)),
{
    lemma_number_trimmed(ms);
    reveal_strlit("tg");
    reveal_strlit("vec");
    reveal_strlit("unroll");
    reveal_strlit("nsg");
    reveal_strlit("nr0");
    reveal_strlit("ms");
    lemma_key_ok("tg"@);
    lemma_key_ok("vec"@);
    lemma_key_ok("unroll"@);
    lemma_key_ok("nsg"@);
    lemma_key_ok("nr0"@);
    lemma_key_ok("ms"@);
    lemma_dec_line(s.tg as nat);
    lemma_dec_line(s.vec as nat);
    lemma_dec_line(s.unroll as nat);
    lemma_dec_line(s.nsg as nat);
    lemma_dec_line(s.nr0 as nat);
    lemma_number_of_dec(s.tg as nat, u64::MAX as nat);
    lemma_number_of_dec(s.vec as nat, u32::MAX as nat);
    lemma_number_of_dec(s.unroll as nat, u32::MAX as nat);
    lemma_number_of_dec(s.nsg as nat, u32::MAX as nat);
    lemma_number_of_dec(s.nr0 as nat, u32::MAX as nat);
    assert forall|i: int| 0 <= i < ms.len() implies ms[i] != '\n' by {
        assert(ms.contains(ms[i]));
    }
    let end = Seq::<char>::empty();
    let t5 = line_text("ms"@, ms) + end;
    let t4 = line_text("nr0"@, dec(s.nr0 as nat)) + t5;
    let t3 = line_text("nsg"@, dec(s.nsg as nat)) + t4;
    let t2 = line_text("unroll"@, dec(s.unroll as nat)) + t3;
    let t1 = line_text("vec"@, dec(s.vec as nat)) + t2;
    let e0 = no_entry();
    lemma_line("tg"@, dec(s.tg as nat), t1, e0);
    let e1 = e0.set_key("tg"@, dec(s.tg as nat));
    lemma_line("vec"@, dec(s.vec as nat), t2, e1);
    let e2 = e1.set_key("vec"@, dec(s.vec as nat));
    lemma_line("unroll"@, dec(s.unroll as nat), t3, e2);
    let e3 = e2.set_key("unroll"@, dec(s.unroll as nat));
    lemma_line("nsg"@, dec(s.nsg as nat), t4, e3);
    let e4 = e3.set_key("nsg"@, dec(s.nsg as nat));
    lemma_line("nr0"@, dec(s.nr0 as nat), t5, e4);
    let e5 = e4.set_key("nr0"@, dec(s.nr0 as nat));
    lemma_line("ms"@, ms, end, e5);
    let e6 = e5.set_key("ms"@, ms);
    assert("tg"@.len() == 2 && "ms"@.len() == 2 && "tg"@[0] != "ms"@[0]);
    assert("vec"@.len() == 3 && "nsg"@.len() == 3 && "nr0"@.len() == 3 && "unroll"@.len() == 6);
    assert("vec"@[0] != "nsg"@[0] && "nsg"@[1] != "nr0"@[1] && "vec"@[0] != "nr0"@[0]);
    assert(e1.tg == Some(s.tg));
    assert(e2.vec == Some(s.vec) && e2.tg == Some(s.tg));
    assert(e3.unroll == Some(s.unroll) && e3.vec == Some(s.vec) && e3.tg == Some(s.tg));
    assert(e4.nsg == Some(s.nsg) && e4.unroll == Some(s.unroll) && e4.vec == Some(s.vec) && e4.tg
        == Some(s.tg));
    assert(e5.nr0 == Some(s.nr0) && e5.nsg == Some(s.nsg) && e5.unroll == Some(s.unroll) && e5.vec
        == Some(s.vec) && e5.tg == Some(s.tg));
    assert(read_lines(end, e6) == Some(e6));
}

} // verus!
