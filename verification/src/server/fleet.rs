//! What every tick of the scheduler keeps: requests and slots stay consistent with each other.

use vstd::prelude::*;

use crate::gemma::kv_pool::{lemma_taken_count, taken, KvPool, KvSlot};
use crate::server::scheduler::{fleet, owned, Active};

verus! {

/// The requests that are not over, in order.
pub open spec fn unfinished(s: Seq<Active>) -> Seq<Active>
    decreases s.len(),
{
    if s.len() == 0 {
        Seq::empty()
    } else if s.last().finished {
        unfinished(s.drop_last())
    } else {
        unfinished(s.drop_last()).push(s.last())
    }
}

/// Whether a request that is over owns slot number `k`.
pub open spec fn given_up(s: Seq<Active>, k: int) -> bool {
    exists|i: int| 0 <= i < s.len() && (#[trigger] s[i]).finished && s[i].slot.0 == k
}

/// A slot given back.
pub open spec fn emptied(s: KvSlot) -> KvSlot {
    KvSlot { occupied: false, seq_len: 0, ..s }
}

/// A request that leaves with its slot keeps all consistent.
proof fn lemma_fleet_drop(active: Seq<Active>, p: KvPool, q: KvPool, i: int)
    requires
        fleet(active, p),
        0 <= i < active.len(),
        q.wf(),
        q.slots@ == p.slots@.update(active[i].slot.0 as int, emptied(p.slot(active[i].slot))),
    ensures
        fleet(active.remove(i), q),
{
    let u = active.remove(i);
    let s = active[i].slot;
    assert(active[i].linked(p));
    assert forall|j: int| 0 <= j < u.len() implies (#[trigger] u[j]).wf() && u[j].linked(q) by {
        let k = if j < i {
            j
        } else {
            j + 1
        };
        assert(u[j] == active[k]);
        assert(active[k].linked(p));
        assert(active[k].slot != s) by {
            if k < i {
                assert(active[k].slot != active[i].slot);
            } else {
                assert(active[i].slot != active[k].slot);
            }
        }
    }
    assert forall|a: int, b: int| 0 <= a < b < u.len() implies (#[trigger] u[a]).slot != (
    #[trigger] u[b]).slot by {
        let x = if a < i {
            a
        } else {
            a + 1
        };
        let y = if b < i {
            b
        } else {
            b + 1
        };
        assert(u[a] == active[x] && u[b] == active[y]);
    }
    assert forall|k: int|
        0 <= k < q.slots@.len() && (#[trigger] q.slots@[k]).occupied implies owned(u, k) by {
        assert(k != s.0);
        assert(p.slots@[k].occupied);
        let j = choose|j: int| 0 <= j < active.len() && (#[trigger] active[j]).slot.0 == k;
        assert(j != i);
        if j < i {
            assert(u[j].slot.0 == k);
        } else {
            assert(u[j - 1].slot.0 == k);
        }
    }
}

/// Takes out the requests that are over and gives their slots back.
pub fn reap_finished(pool: &mut KvPool, active: &mut Vec<Active>)
    requires
        fleet(old(active)@, *old(pool)),
    ensures
        fleet(final(active)@, *final(pool)),
        final(pool).same_shape(*old(pool)),
        final(active)@ == unfinished(old(active)@),
        final(pool).slots@.len() == old(pool).slots@.len(),
        forall|k: int|
            0 <= k < old(pool).slots@.len() ==> #[trigger] final(pool).slots@[k] == (if given_up(
                old(active)@,
                k,
            ) {
                emptied(old(pool).slots@[k])
            } else {
                old(pool).slots@[k]
            }),
{
    let ghost all = active@;
    let ghost p0 = *pool;
    let ghost mut done: int = 0;
    let mut i: usize = 0;
    assert(all.take(0) =~= Seq::<Active>::empty());
    assert(all.skip(0) =~= all);
    assert(active@ =~= unfinished(all.take(0)) + all.skip(0));
    while i < active.len()
        invariant
            i <= active@.len(),
            0 <= done <= all.len(),
            i == unfinished(all.take(done)).len(),
            active@ == unfinished(all.take(done)) + all.skip(done),
            fleet(active@, *pool),
            fleet(all, p0),
            all == old(active)@,
            p0 == *old(pool),
            pool.same_shape(p0),
            pool.slots@.len() == p0.slots@.len(),
            forall|k: int|
                0 <= k < p0.slots@.len() ==> #[trigger] pool.slots@[k] == (if given_up(
                    all.take(done),
                    k,
                ) {
                    emptied(p0.slots@[k])
                } else {
                    p0.slots@[k]
                }),
        decreases active@.len() - i,
    {
        let ghost was = active@;
        let ghost p = *pool;
        let ghost head = unfinished(all.take(done));
        let ghost a = was[i as int];
        proof {
            assert(done < all.len());
            assert(a == all[done]);
            assert(all.take(done + 1).drop_last() =~= all.take(done));
            assert(all.take(done + 1).last() == a);
            lemma_given_up(all, done);
        }
        if active[i].finished {
            let slot = active[i].slot;
            assert(a.linked(p));
            let _ = pool.free(slot);
            let _ = active.remove(i);
            proof {
                lemma_fleet_drop(was, p, *pool, i as int);
                assert(active@ =~= was.remove(i as int));
                assert(active@ =~= head + all.skip(done + 1));
                assert forall|k: int| 0 <= k < p0.slots@.len() implies #[trigger] pool.slots@[k]
                    == (if given_up(all.take(done + 1), k) {
                    emptied(p0.slots@[k])
                } else {
                    p0.slots@[k]
                }) by {
                    assert(p.slots@[k] == (if given_up(all.take(done), k) {
                        emptied(p0.slots@[k])
                    } else {
                        p0.slots@[k]
                    }));
                }
                done = done + 1;
            }
        } else {
            i += 1;
            proof {
                assert(active@ =~= head.push(a) + all.skip(done + 1));
                assert forall|k: int| 0 <= k < p0.slots@.len() implies #[trigger] pool.slots@[k]
                    == (if given_up(all.take(done + 1), k) {
                    emptied(p0.slots@[k])
                } else {
                    p0.slots@[k]
                }) by {
                    assert(p.slots@[k] == (if given_up(all.take(done), k) {
                        emptied(p0.slots@[k])
                    } else {
                        p0.slots@[k]
                    }));
                }
                done = done + 1;
            }
        }
    }
    proof {
        assert(done == all.len());
        assert(all.take(done) =~= all);
        assert(active@ =~= unfinished(all));
    }
}

/// One more request gives up its slot, if it is over.
proof fn lemma_given_up(s: Seq<Active>, n: int)
    requires
        0 <= n < s.len(),
    ensures
        forall|k: int| #[trigger]
            given_up(s.take(n + 1), k) <==> given_up(s.take(n), k) || (s[n].finished && s[n].slot.0
                == k),
{
    assert forall|k: int| #[trigger]
        given_up(s.take(n + 1), k) <==> given_up(s.take(n), k) || (s[n].finished && s[n].slot.0
            == k) by {
        if given_up(s.take(n), k) {
            let i = choose|i: int|
                0 <= i < n && (#[trigger] s.take(n)[i]).finished && s.take(n)[i].slot.0 == k;
            assert(s.take(n + 1)[i] == s.take(n)[i]);
        }
        if s[n].finished && s[n].slot.0 == k {
            assert(s.take(n + 1)[n].slot.0 == k);
        }
        if given_up(s.take(n + 1), k) {
            let i = choose|i: int|
                0 <= i < n + 1 && (#[trigger] s.take(n + 1)[i]).finished && s.take(n + 1)[i].slot.0
                    == k;
            if i < n {
                assert(s.take(n)[i] == s.take(n + 1)[i]);
            }
        }
    }
}

/// A request that gets a free slot keeps all consistent, and shares its slot with no other.
pub proof fn lemma_admission_keeps(active: Seq<Active>, p: KvPool, q: KvPool, a: Active)
    requires
        fleet(active, p),
        q.wf(),
        p.valid(a.slot),
        !p.slot(a.slot).occupied,
        a.wf(),
        a.linked(q),
        q.slots@ == p.slots@.update(
            a.slot.0 as int,
            (KvSlot { occupied: true, seq_len: 0, ..p.slot(a.slot) }),
        ),
    ensures
        fleet(active.push(a), q),
{
    let u = active.push(a);
    assert forall|i: int| 0 <= i < u.len() implies (#[trigger] u[i]).wf() && u[i].linked(q) by {
        if i < active.len() {
            assert(u[i] == active[i]);
            assert(active[i].linked(p));
            assert(active[i].slot != a.slot);
        }
    }
    assert forall|i: int, j: int| 0 <= i < j < u.len() implies (#[trigger] u[i]).slot != (
    #[trigger] u[j]).slot by {
        assert(u[i] == active[i]);
        assert(active[i].linked(p));
        if j < active.len() {
            assert(u[j] == active[j]);
        } else {
            assert(p.slot(active[i].slot).occupied);
        }
    }
    assert forall|k: int|
        0 <= k < q.slots@.len() && (#[trigger] q.slots@[k]).occupied implies owned(u, k) by {
        if k == a.slot.0 {
            assert(u[active.len() as int].slot.0 == k);
        } else {
            assert(p.slots@[k].occupied);
            let i = choose|i: int| 0 <= i < active.len() && (#[trigger] active[i]).slot.0 == k;
            assert(u[i].slot.0 == k);
        }
    }
}

/// As many slots are taken as there are requests.
pub proof fn lemma_taken_is_active(active: Seq<Active>, pool: KvPool)
    requires
        fleet(active, pool),
    ensures
        taken(pool.slots@).len() == active.len(),
{
    let ids = active.map_values(|a: Active| a.slot.0 as int);
    let s = pool.slots@;
    assert forall|i: int| 0 <= i < ids.len() implies 0 <= #[trigger] ids[i] < s.len()
        && s[ids[i]].occupied by {
        assert(active[i].linked(pool));
    }
    assert forall|i: int, j: int| 0 <= i < j < ids.len() implies #[trigger] ids[i]
        != #[trigger] ids[j] by {
        assert(active[i].slot != active[j].slot);
    }
    assert forall|k: int| 0 <= k < s.len() && (#[trigger] s[k]).occupied implies ids.contains(
        k,
    ) by {
        let i = choose|i: int| 0 <= i < active.len() && (#[trigger] active[i]).slot.0 == k;
        assert(ids[i] == k);
    }
    lemma_count(s, ids);
}

/// A list of all taken slots, each once, is as long as there are taken slots.
proof fn lemma_count(s: Seq<KvSlot>, ids: Seq<int>)
    requires
        forall|i: int|
            0 <= i < ids.len() ==> 0 <= #[trigger] ids[i] < s.len() && s[ids[i]].occupied,
        forall|i: int, j: int| 0 <= i < j < ids.len() ==> #[trigger] ids[i] != #[trigger] ids[j],
        forall|k: int| 0 <= k < s.len() && (#[trigger] s[k]).occupied ==> ids.contains(k),
    ensures
        taken(s).len() == ids.len(),
    decreases ids.len(),
{
    if ids.len() == 0 {
        lemma_none_taken(s, ids);
    } else {
        let n = ids.len() - 1;
        let k = ids[n];
        let u = s.update(k, emptied(s[k]));
        let rest = ids.drop_last();
        assert forall|i: int| 0 <= i < rest.len() implies 0 <= #[trigger] rest[i] < u.len()
            && u[rest[i]].occupied by {
            assert(rest[i] == ids[i]);
            assert(ids[i] != ids[n]);
        }
        assert forall|j: int| 0 <= j < u.len() && (#[trigger] u[j]).occupied implies rest.contains(
            j,
        ) by {
            assert(j != k);
            assert(s[j].occupied);
            let i = choose|i: int| 0 <= i < ids.len() && ids[i] == j;
            assert(i != n);
            assert(rest[i] == j);
        }
        lemma_count(u, rest);
        lemma_taken_count(s, k, emptied(s[k]));
    }
}

proof fn lemma_none_taken(s: Seq<KvSlot>, ids: Seq<int>)
    requires
        ids.len() == 0,
        forall|k: int| 0 <= k < s.len() && (#[trigger] s[k]).occupied ==> ids.contains(k),
    ensures
        taken(s).len() == 0,
    decreases s.len(),
{
    if s.len() > 0 {
        let t = s.drop_last();
        assert forall|k: int| 0 <= k < t.len() && (#[trigger] t[k]).occupied implies ids.contains(
            k,
        ) by {
            assert(s[k] == t[k]);
        }
        lemma_none_taken(t, ids);
        if s.last().occupied {
            assert(ids.contains(s.len() - 1));
        }
    }
}

} // verus!
