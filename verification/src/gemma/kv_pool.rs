//! Slots for resident sequences: which are taken, and how long each sequence is.

use vstd::prelude::*;
use vstd::string::*;

use crate::ir::dtype::q40_nbytes;
use crate::text::{dec, dec_usize};

verus! {

/// A handle for a resident sequence.
#[derive(Clone, Copy, Debug, PartialEq, Eq, Hash, Structural)]
pub struct SlotId(pub u32);

#[derive(Clone, Copy, Debug, PartialEq, Eq, Structural)]
pub struct KvSlot {
    pub id: SlotId,
    pub occupied: bool,
    pub seq_len: usize,
    pub max_seq: usize,
}

/// A pool of caches for keys and values: `max_batch` sequences of at most `max_seq` positions
/// over `n_kv_layers` layers.
#[derive(Debug)]
pub struct KvPool {
    pub slots: Vec<KvSlot>,
    pub max_batch: usize,
    pub max_seq: usize,
    pub n_kv_layers: usize,
    pub hd: usize,
    /// Heads of keys and values at each position.
    pub n_kv: usize,
    /// Whether the caches hold floating-point elements; else they are packed as Q4_0.
    pub f32_kv: bool,
    /// Bytes of such an element.
    pub kv_elem_bytes: usize,
}

/// What can be wrong with a pool operation.
#[derive(Clone, Copy, Debug, PartialEq, Eq, Structural)]
pub enum PoolError {
    ZeroDims,
    Full { max_batch: usize },
    BadSlot,
    BadIndex,
    NotOccupied,
    SeqFull,
}

impl PoolError {
    pub open spec fn text(self) -> Seq<char> {
        match self {
            PoolError::ZeroDims => "KvPool dims must be non-zero"@,
            PoolError::Full { max_batch } => "KvPool full (max_batch="@ + dec(max_batch as nat)
                + ")"@,
            PoolError::BadSlot => "bad SlotId"@,
            PoolError::BadIndex => "bad kv index"@,
            PoolError::NotOccupied => "slot not occupied"@,
            PoolError::SeqFull => "slot seq full"@,
        }
    }

    pub fn message(self) -> (r: String)
        ensures
            r@ == self.text(),
    {
        match self {
            PoolError::ZeroDims => String::from_str("KvPool dims must be non-zero"),
            PoolError::Full { max_batch } => String::from_str("KvPool full (max_batch=").concat(
                dec_usize(max_batch).as_str(),
            ).concat(")"),
            PoolError::BadSlot => String::from_str("bad SlotId"),
            PoolError::BadIndex => String::from_str("bad kv index"),
            PoolError::NotOccupied => String::from_str("slot not occupied"),
            PoolError::SeqFull => String::from_str("slot seq full"),
        }
    }
}

/// A free slot.
pub open spec fn free_slot(i: int, max_seq: usize) -> KvSlot {
    KvSlot { id: SlotId(i as u32), occupied: false, seq_len: 0, max_seq }
}

/// The first slot at or after `from` that is free.
pub open spec fn first_free(s: Seq<KvSlot>, from: int) -> Option<int>
    decreases s.len() - from,
{
    if from < 0 || from >= s.len() {
        None
    } else if !s[from].occupied {
        Some(from)
    } else {
        first_free(s, from + 1)
    }
}

/// The taken slots, in order.
pub open spec fn taken(s: Seq<KvSlot>) -> Seq<SlotId>
    decreases s.len(),
{
    if s.len() == 0 {
        Seq::empty()
    } else if s.last().occupied {
        taken(s.drop_last()).push(s.last().id)
    } else {
        taken(s.drop_last())
    }
}

impl KvPool {
    /// Whether the pool is consistent: one slot for each sequence, numbered in order, none longer
    /// than it may be, and a free one of length zero.
    pub open spec fn wf(self) -> bool {
        &&& self.slots@.len() == self.max_batch
        &&& self.max_batch <= u32::MAX
        &&& self.max_batch > 0
        &&& forall|i: int| 0 <= i < self.slots@.len() ==> slot_ok(
            #[trigger] self.slots@[i],
            i,
            self.max_seq,
        )
    }

    /// Whether everything but the slots is as in another pool.
    pub open spec fn same_shape(self, o: KvPool) -> bool {
        &&& self.max_batch == o.max_batch
        &&& self.max_seq == o.max_seq
        &&& self.n_kv_layers == o.n_kv_layers
        &&& self.hd == o.hd
        &&& self.n_kv == o.n_kv
        &&& self.f32_kv == o.f32_kv
        &&& self.kv_elem_bytes == o.kv_elem_bytes
    }

    /// Whether a slot handle is one of the pool's.
    pub open spec fn valid(self, id: SlotId) -> bool {
        id.0 < self.slots@.len()
    }

    pub open spec fn slot(self, id: SlotId) -> KvSlot {
        self.slots@[id.0 as int]
    }

    /// Whether a fresh pool of these dimensions came out.
    pub open spec fn made(
        r: Result<KvPool, PoolError>,
        max_batch: usize,
        max_seq: usize,
        n_kv_layers: usize,
        hd: usize,
        n_kv: usize,
        float_kv: bool,
        elem_bytes: usize,
    ) -> bool {
        match r {
            Err(e) => e == PoolError::ZeroDims && (max_batch == 0 || max_seq == 0 || n_kv_layers
                == 0 || hd == 0 || n_kv == 0),
            Ok(p) => {
                &&& max_batch != 0 && max_seq != 0 && n_kv_layers != 0 && hd != 0 && n_kv != 0
                &&& p.wf()
                &&& p.slots@ == Seq::new(max_batch as nat, |i: int| free_slot(i, max_seq))
                &&& p.max_batch == max_batch && p.max_seq == max_seq
                &&& p.n_kv_layers == n_kv_layers && p.hd == hd && p.n_kv == n_kv
                &&& p.f32_kv == float_kv && p.kv_elem_bytes == elem_bytes
            },
        }
    }

    /// A pool of packed caches.
    pub fn new(max_batch: usize, max_seq: usize, n_kv_layers: usize, hd: usize, n_kv: usize) -> (r:
        Result<KvPool, PoolError>)
        requires
            max_batch <= u32::MAX,
        ensures
            KvPool::made(r, max_batch, max_seq, n_kv_layers, hd, n_kv, false, 0),
    {
        KvPool::new_inner(max_batch, max_seq, n_kv_layers, hd, n_kv, false, 0)
    }

    /// A pool of single-precision caches.
    pub fn new_f32(
        max_batch: usize,
        max_seq: usize,
        n_kv_layers: usize,
        hd: usize,
        n_kv: usize,
    ) -> (r:
        Result<KvPool, PoolError>)
        requires
            max_batch <= u32::MAX,
        ensures
            KvPool::made(r, max_batch, max_seq, n_kv_layers, hd, n_kv, true, 4),
    {
        KvPool::new_inner(max_batch, max_seq, n_kv_layers, hd, n_kv, true, 4)
    }

    /// A pool of half-precision caches.
    pub fn new_f16(
        max_batch: usize,
        max_seq: usize,
        n_kv_layers: usize,
        hd: usize,
        n_kv: usize,
    ) -> (r:
        Result<KvPool, PoolError>)
        requires
            max_batch <= u32::MAX,
        ensures
            KvPool::made(r, max_batch, max_seq, n_kv_layers, hd, n_kv, true, 2),
    {
        KvPool::new_inner(max_batch, max_seq, n_kv_layers, hd, n_kv, true, 2)
    }

    fn new_inner(
        max_batch: usize,
        max_seq: usize,
        n_kv_layers: usize,
        hd: usize,
        n_kv: usize,
        float_kv: bool,
        elem_bytes: usize,
    ) -> (r: Result<KvPool, PoolError>)
        requires
            max_batch <= u32::MAX,
        ensures
            KvPool::made(r, max_batch, max_seq, n_kv_layers, hd, n_kv, float_kv, elem_bytes),
    {
        if max_batch == 0 || max_seq == 0 || n_kv_layers == 0 || hd == 0 || n_kv == 0 {
            return Err(PoolError::ZeroDims);
        }
        let mut slots: Vec<KvSlot> = Vec::new();
        let mut i: usize = 0;
        while i < max_batch
            invariant
                i <= max_batch,
                max_batch <= u32::MAX,
                slots@ == Seq::new(i as nat, |j: int| free_slot(j, max_seq)),
            decreases max_batch - i,
        {
            slots.push(KvSlot { id: SlotId(i as u32), occupied: false, seq_len: 0, max_seq });
            assert(slots@ =~= Seq::new((i + 1) as nat, |j: int| free_slot(j, max_seq)));
            i += 1;
        }
        Ok(
            KvPool {
                slots,
                max_batch,
                max_seq,
                n_kv_layers,
                hd,
                n_kv,
                f32_kv: float_kv,
                kv_elem_bytes: elem_bytes,
            },
        )
    }

    /// Bytes of the cache of one layer of one slot.
    pub open spec fn cache_bytes_of(self) -> int {
        if self.f32_kv {
            self.max_seq * self.n_kv * self.hd * (if self.kv_elem_bytes == 2 {
                2int
            } else {
                4int
            })
        } else {
            self.max_seq * self.n_kv * (self.hd / 32 * 18)
        }
    }

    /// Bytes of the cache of one layer of one slot.
    pub fn cache_bytes(&self) -> (r: usize)
        requires
            self.max_seq * self.n_kv <= usize::MAX,
            self.cache_bytes_of() <= usize::MAX,
            !self.f32_kv ==> self.hd % 32 == 0,
        ensures
            r == self.cache_bytes_of(),
    {
        let rows: usize = self.max_seq * self.n_kv;
        if self.f32_kv {
            let n: usize = rows * self.hd;
            if self.kv_elem_bytes == 2 {
                n * 2
            } else {
                n * 4
            }
        } else {
            q40_nbytes(rows, self.hd)
        }
    }

    /// Takes the first free slot, for a sequence of no positions yet.
    pub fn alloc_slot(&mut self) -> (r: Result<SlotId, PoolError>)
        requires
            old(self).wf(),
        ensures
            final(self).wf(),
            final(self).same_shape(*old(self)),
            match first_free(old(self).slots@, 0) {
                Some(i) => {
                    &&& r == Ok::<SlotId, PoolError>(SlotId(i as u32))
                    &&& 0 <= i < old(self).slots@.len()
                    &&& final(self).slots@ == old(self).slots@.update(
                        i,
                        (KvSlot { occupied: true, seq_len: 0, ..old(self).slots@[i] }),
                    )
                },
                None => r == Err::<SlotId, PoolError>(
                    PoolError::Full { max_batch: old(self).max_batch },
                ) && final(self).slots@ == old(self).slots@,
            },
    {
        let mut i: usize = 0;
        while i < self.slots.len()
            invariant
                i <= self.slots@.len(),
                *self == *old(self),
                self.wf(),
                first_free(self.slots@, 0) == first_free(self.slots@, i as int),
            decreases self.slots@.len() - i,
        {
            let s = self.slots[i];
            if !s.occupied {
                assert(slot_ok(self.slots@[i as int], i as int, self.max_seq));
                let t = KvSlot { id: s.id, occupied: true, seq_len: 0, max_seq: s.max_seq };
                self.slots.set(i, t);
                assert forall|k: int| 0 <= k < self.slots@.len() implies slot_ok(
                    #[trigger] self.slots@[k],
                    k,
                    self.max_seq,
                ) by {
                    assert(slot_ok(old(self).slots@[k], k, self.max_seq));
                }
                return Ok(s.id);
            }
            i += 1;
        }
        Err(PoolError::Full { max_batch: self.max_batch })
    }

    /// Checks that the caches of a slot can be cleared.
    pub fn clear_slot(&self, id: SlotId) -> (r: Result<(), PoolError>)
        ensures
            r == (if (id.0 as usize) < self.max_batch {
                Ok::<(), PoolError>(())
            } else {
                Err(PoolError::BadSlot)
            }),
    {
        if id.0 as usize >= self.max_batch {
            Err(PoolError::BadSlot)
        } else {
            Ok(())
        }
    }

    /// The number of positions of a sequence.
    pub fn seq_len(&self, id: SlotId) -> (r: Result<usize, PoolError>)
        ensures
            r == (if self.valid(id) {
                Ok(self.slot(id).seq_len)
            } else {
                Err(PoolError::BadSlot)
            }),
    {
        if (id.0 as usize) < self.slots.len() {
            Ok(self.slots[id.0 as usize].seq_len)
        } else {
            Err(PoolError::BadSlot)
        }
    }

    /// Gives a slot back.
    pub fn free(&mut self, id: SlotId) -> (r: Result<(), PoolError>)
        requires
            old(self).wf(),
        ensures
            final(self).wf(),
            final(self).same_shape(*old(self)),
            if old(self).valid(id) {
                &&& r == Ok::<(), PoolError>(())
                &&& final(self).slots@ == old(self).slots@.update(
                    id.0 as int,
                    (KvSlot { occupied: false, seq_len: 0, ..old(self).slot(id) }),
                )
            } else {
                &&& r == Err::<(), PoolError>(PoolError::BadSlot)
                &&& final(self).slots@ == old(self).slots@
            },
    {
        let i: usize = id.0 as usize;
        if i >= self.slots.len() {
            return Err(PoolError::BadSlot);
        }
        let s = self.slots[i];
        assert(slot_ok(self.slots@[i as int], i as int, self.max_seq));
        let t = KvSlot { id: s.id, occupied: false, seq_len: 0, max_seq: s.max_seq };
        self.slots.set(i, t);
        assert forall|k: int| 0 <= k < self.slots@.len() implies slot_ok(
            #[trigger] self.slots@[k],
            k,
            self.max_seq,
        ) by {
            assert(slot_ok(old(self).slots@[k], k, self.max_seq));
        }
        Ok(())
    }

    /// The taken slots.
    pub fn active_batch(&self) -> (r: Vec<SlotId>)
        ensures
            r@ == taken(self.slots@),
            r@.len() <= self.slots@.len(),
    {
        let mut v: Vec<SlotId> = Vec::new();
        let mut i: usize = 0;
        assert(self.slots@.take(0) =~= Seq::<KvSlot>::empty());
        while i < self.slots.len()
            invariant
                i <= self.slots@.len(),
                v@ == taken(self.slots@.take(i as int)),
                v@.len() <= i,
            decreases self.slots@.len() - i,
        {
            let ghost t = self.slots@.take(i + 1);
            assert(t.drop_last() =~= self.slots@.take(i as int));
            assert(t.last() == self.slots@[i as int]);
            let s = self.slots[i];
            if s.occupied {
                v.push(s.id);
            }
            i += 1;
        }
        assert(self.slots@.take(self.slots@.len() as int) =~= self.slots@);
        v
    }

    /// Checks the place of a cache.
    pub fn kv_index(&self, slot: SlotId, layer: usize) -> (r: Result<(usize, usize), PoolError>)
        ensures
            r == (if self.valid(slot) && layer < self.n_kv_layers {
                Ok((slot.0 as usize, layer))
            } else {
                Err(PoolError::BadIndex)
            }),
    {
        if (slot.0 as usize) < self.slots.len() && layer < self.n_kv_layers {
            Ok((slot.0 as usize, layer))
        } else {
            Err(PoolError::BadIndex)
        }
    }

    /// What growing a sequence by `n` positions comes to.
    pub open spec fn grown(self, slot: SlotId, n: nat) -> Result<usize, PoolError> {
        if !self.valid(slot) {
            Err(PoolError::BadSlot)
        } else if !self.slot(slot).occupied {
            Err(PoolError::NotOccupied)
        } else if self.slot(slot).seq_len + n > self.slot(slot).max_seq {
            Err(PoolError::SeqFull)
        } else {
            Ok((self.slot(slot).seq_len + n) as usize)
        }
    }

    /// Whether `self` is `old` with a sequence grown, if that could be.
    pub open spec fn grew(self, before: KvPool, slot: SlotId, r: Result<usize, PoolError>) -> bool {
        &&& self.same_shape(before)
        &&& match r {
            Ok(n) => self.slots@ == before.slots@.update(
                slot.0 as int,
                (KvSlot { seq_len: n, ..before.slot(slot) }),
            ),
            Err(_) => self.slots@ == before.slots@,
        }
    }

    /// Adds one position to a sequence.
    pub fn bump_len(&mut self, slot: SlotId) -> (r: Result<usize, PoolError>)
        requires
            old(self).wf(),
        ensures
            final(self).wf(),
            r == old(self).grown(slot, 1),
            final(self).grew(*old(self), slot, r),
    {
        self.bump_len_by(slot, 1)
    }

    /// Adds positions to a sequence.
    pub fn bump_len_by(&mut self, slot: SlotId, n: usize) -> (r: Result<usize, PoolError>)
        requires
            old(self).wf(),
        ensures
            final(self).wf(),
            r == old(self).grown(slot, n as nat),
            final(self).grew(*old(self), slot, r),
    {
        let i: usize = slot.0 as usize;
        if i >= self.slots.len() {
            return Err(PoolError::BadSlot);
        }
        let s = self.slots[i];
        assert(slot_ok(self.slots@[i as int], i as int, self.max_seq));
        if !s.occupied {
            return Err(PoolError::NotOccupied);
        }
        if n > s.max_seq - s.seq_len {
            return Err(PoolError::SeqFull);
        }
        let t = KvSlot { id: s.id, occupied: true, seq_len: s.seq_len + n, max_seq: s.max_seq };
        self.slots.set(i, t);
        assert forall|k: int| 0 <= k < self.slots@.len() implies slot_ok(
            #[trigger] self.slots@[k],
            k,
            self.max_seq,
        ) by {
            assert(slot_ok(old(self).slots@[k], k, self.max_seq));
        }
        Ok(s.seq_len + n)
    }
}

/// Whether a slot is consistent with its place in the pool.
pub open spec fn slot_ok(s: KvSlot, i: int, max_seq: usize) -> bool {
    &&& s.id == SlotId(i as u32)
    &&& s.max_seq == max_seq
    &&& s.seq_len <= max_seq
    &&& !s.occupied ==> s.seq_len == 0
}

/// The first free slot is free and every slot before it is taken.
pub proof fn lemma_first_free(s: Seq<KvSlot>, from: int)
    requires
        0 <= from <= s.len(),
    ensures
        match first_free(s, from) {
            Some(i) => from <= i < s.len() && !s[i].occupied && forall|j: int|
                from <= j < i ==> (#[trigger] s[j]).occupied,
            None => forall|j: int| from <= j < s.len() ==> (#[trigger] s[j]).occupied,
        },
    decreases s.len() - from,
{
    if from < s.len() && s[from].occupied {
        lemma_first_free(s, from + 1);
    }
}

/// A slot is in the list of taken slots exactly if it is taken.
pub proof fn lemma_taken(s: Seq<KvSlot>, i: int)
    requires
        0 <= i < s.len(),
        forall|k: int| 0 <= k < s.len() ==> (#[trigger] s[k]).id == SlotId(k as u32),
        s.len() <= u32::MAX,
    ensures
        taken(s).contains(SlotId(i as u32)) <==> s[i].occupied,
        forall|k: int| 0 <= k < taken(s).len() ==> (#[trigger] taken(s)[k]).0 < s.len(),
    decreases s.len(),
{
    let t = s.drop_last();
    if t.len() > 0 {
        lemma_taken(
            t,
            if i < t.len() {
                i
            } else {
                0
            },
        );
    }
    let a = taken(t);
    assert forall|k: int| 0 <= k < a.len() implies (#[trigger] a[k]).0 < t.len() by {}
    if s.last().occupied {
        let b = taken(s);
        assert(b == a.push(s.last().id));
        assert forall|k: int| 0 <= k < b.len() implies (#[trigger] b[k]).0 < s.len() by {
            if k < a.len() {
                assert(b[k] == a[k]);
            }
        }
        if i == t.len() {
            assert(b[a.len() as int] == SlotId(i as u32));
        } else if s[i].occupied {
            let k = choose|k: int| 0 <= k < a.len() && a[k] == SlotId(i as u32);
            assert(b[k] == SlotId(i as u32));
        } else if b.contains(SlotId(i as u32)) {
            let k = choose|k: int| 0 <= k < b.len() && b[k] == SlotId(i as u32);
            assert(k < a.len());
            assert(a[k] == SlotId(i as u32));
        }
    } else if i == t.len() && a.contains(SlotId(i as u32)) {
        let k = choose|k: int| 0 <= k < a.len() && a[k] == SlotId(i as u32);
        assert(a[k].0 < t.len());
    }
}

/// The number of taken slots goes up by one when a slot is taken.
pub proof fn lemma_taken_count(s: Seq<KvSlot>, i: int, v: KvSlot)
    requires
        0 <= i < s.len(),
        s[i].occupied != v.occupied,
    ensures
        v.occupied ==> taken(s.update(i, v)).len() == taken(s).len() + 1,
        !v.occupied ==> taken(s.update(i, v)).len() == taken(s).len() - 1,
    decreases s.len(),
{
    let u = s.update(i, v);
    if i == s.len() - 1 {
        assert(u.drop_last() =~= s.drop_last());
    } else {
        lemma_taken_count(s.drop_last(), i, v);
        assert(u.drop_last() =~= s.drop_last().update(i, v));
    }
}

/// A slot that was given back is taken again by the next allocation, if no earlier one is free.
pub proof fn lemma_reuse(s: Seq<KvSlot>, i: int, v: KvSlot)
    requires
        0 <= i < s.len(),
        !v.occupied,
        forall|j: int| 0 <= j < i ==> (#[trigger] s[j]).occupied,
    ensures
        first_free(s.update(i, v), 0) == Some(i),
{
    let u = s.update(i, v);
    lemma_first_free(u, 0);
    match first_free(u, 0) {
        Some(k) => {
            if k < i {
                assert(u[k] == s[k]);
            } else if k > i {
                assert(u[i].occupied);
            }
        },
        None => {
            assert(u[i].occupied);
        },
    }
}

} // verus!
