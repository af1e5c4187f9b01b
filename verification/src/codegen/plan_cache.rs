//! Kept tilings by kind of kernel, dimensions and chip.

use vstd::prelude::*;
use vstd::string::*;

use crate::codegen::beam::{
    beam_cache_dir, cache_dir_of, hash_plan, join_path, joined, kept, kept_text,
    lemma_kept_text_reads_back, load_beam_cache, opt_text, plan_hash, save_beam_cache,
    BeamCacheEntry,
};
use crate::decimal::is_number;
use crate::ir::kernel::OptSchedule;
use crate::text::{chars_of, cut, dec, dec_usize, hex, hex16, join, join_strings, text_of, texts};

verus! {

/// The numerals of some numbers.
pub open spec fn numerals(dims: Seq<usize>) -> Seq<Seq<char>> {
    dims.map_values(|d: usize| dec(d as nat))
}

/// Numbers in decimal with a separator between them.
pub fn join_numbers(dims: &Vec<usize>, sep: &str) -> (r: String)
    ensures
        r@ == join(numerals(dims@), sep@),
{
    let mut parts: Vec<String> = Vec::new();
    let mut i: usize = 0;
    while i < dims.len()
        invariant
            i <= dims@.len(),
            parts@.len() == i,
            forall|k: int| 0 <= k < i ==> (#[trigger] parts@[k])@ == dec(dims@[k] as nat),
        decreases dims@.len() - i,
    {
        parts.push(dec_usize(dims[i]));
        i += 1;
    }
    assert(texts(parts@) =~= numerals(dims@));
    join_strings(&parts, sep)
}

/// The key under which the tiling of a kernel is kept.
pub open spec fn plan_key_of(kind: &str, dims: Seq<usize>, chip: &str) -> Seq<char> {
    kind@ + "_"@ + join(numerals(dims), "x"@) + "_"@ + hex(plan_hash(kind, dims, chip) as nat, 16)
}

pub fn plan_key(kind: &str, dims: &Vec<usize>, chip: &str) -> (r: String)
    ensures
        r@ == plan_key_of(kind, dims@, chip),
{
    let h: u64 = hash_plan(kind, dims, chip);
    String::from_str(kind).concat("_").concat(join_numbers(dims, "x").as_str()).concat("_").concat(
        hex16(h).as_str(),
    )
}

/// The tiling in a text that keeps one.
pub fn load_plan(text: &str) -> (r: Option<OptSchedule>)
    ensures
        r == (match kept(text@) {
            Some((s, _)) => Some(s),
            None => None,
        }),
{
    match load_beam_cache(text) {
        Some(e) => Some(e.schedule),
        None => None,
    }
}

/// The text that keeps a tiling and its time.
pub fn save_plan(schedule: OptSchedule, ms: &str) -> (r: String)
    ensures
        r@ == kept_text(schedule, ms@),
{
    save_beam_cache(&BeamCacheEntry { schedule, ms: String::from_str(ms) })
}

/// A plan that was saved is loaded again, whatever number its time is.
pub proof fn lemma_plan_loaded_again(schedule: OptSchedule, ms: Seq<char>)
    requires
        is_number(ms),
    ensures
        kept(kept_text(schedule, ms)) matches Some((s, _)) && s == schedule,
{
    lemma_kept_text_reads_back(schedule, ms);
}

/// A path without the separators and current-directory components at its end.
pub open spec fn clean_end(s: Seq<char>) -> Seq<char>
    decreases s.len(),
{
    if s.len() > 1 && (s.last() == '/' || (s.last() == '.' && s[s.len() - 2] == '/')) {
        clean_end(s.drop_last())
    } else {
        s
    }
}

/// A path up to and with its last separator.
pub open spec fn through_separator(s: Seq<char>) -> Seq<char>
    decreases s.len(),
{
    if s.len() == 0 || s.last() == '/' {
        s
    } else {
        through_separator(s.drop_last())
    }
}

/// A path without its last component; none for the root and the empty path.
pub open spec fn parent_of(s: Seq<char>) -> Option<Seq<char>> {
    let c = clean_end(s);
    if c.len() == 0 || c == seq!['/'] {
        None
    } else {
        Some(clean_end(through_separator(c)))
    }
}

fn clean(v: &Vec<char>) -> (r: Vec<char>)
    ensures
        r@ == clean_end(v@),
{
    let mut n: usize = v.len();
    assert(v@.take(n as int) =~= v@);
    while n > 1 && (v[n - 1] == '/' || (v[n - 1] == '.' && v[n - 2] == '/'))
        invariant
            n <= v@.len(),
            clean_end(v@) == clean_end(v@.take(n as int)),
        decreases n,
    {
        assert(v@.take(n as int).drop_last() =~= v@.take(n - 1));
        n -= 1;
    }
    let r = cut(v, 0, n);
    assert(r@ =~= v@.take(n as int));
    r
}

fn parent(v: &Vec<char>) -> (r: Option<Vec<char>>)
    ensures
        match r {
            Some(p) => parent_of(v@) == Some(p@),
            None => parent_of(v@) is None,
        },
{
    let c = clean(v);
    if c.len() == 0 || (c.len() == 1 && c[0] == '/') {
        assert(c@.len() == 1 ==> c@ =~= seq!['/']);
        return None;
    }
    let mut n: usize = c.len();
    assert(c@.take(n as int) =~= c@);
    while n > 0 && c[n - 1] != '/'
        invariant
            n <= c@.len(),
            through_separator(c@) == through_separator(c@.take(n as int)),
        decreases n,
    {
        assert(c@.take(n as int).drop_last() =~= c@.take(n - 1));
        n -= 1;
    }
    let p = cut(&c, 0, n);
    assert(p@ =~= c@.take(n as int));
    Some(clean(&p))
}

/// The directory for plans: beside the one for kept tilings.
pub open spec fn plan_dir_of(dir: Option<Seq<char>>, home: Option<Seq<char>>) -> Seq<char> {
    let beam = cache_dir_of(dir, home);
    match parent_of(beam) {
        Some(p) => joined(p, "plan"@),
        None => beam,
    }
}

pub fn plan_cache_dir(dir: Option<&str>, home: Option<&str>) -> (r: String)
    ensures
        r@ == plan_dir_of(opt_text(dir), opt_text(home)),
{
    let beam = beam_cache_dir(dir, home);
    match parent(&chars_of(beam.as_str())) {
        Some(p) => join_path(text_of(&p).as_str(), "plan"),
        None => beam,
    }
}

} // verus!
