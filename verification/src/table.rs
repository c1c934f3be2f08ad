//! Fixed tables with one slot per mappable key ([`KeyId::index`]).
//!
//! A table never allocates on lookup or update, which is why the mapping
//! and the engine use them instead of a map keyed by `KeyId`. Here the
//! table is related to the map it stands for.
use vstd::prelude::*;
use crate::key::{KeyId, key_slot, slot_is_key, slot_key};

verus! {

broadcast use vstd::seq_lib::group_seq_properties, vstd::set::group_set_axioms;

/// A table: 256 slots, only slots of mappable keys filled.
pub open spec fn table_wf<T>(s: Seq<Option<T>>) -> bool {
    &&& s.len() == 256
    &&& forall|i: int| 0 <= i < 256 && #[trigger] s[i] is Some ==> slot_is_key(i)
}

/// The map a table stands for.
pub open spec fn table_view<T>(s: Seq<Option<T>>) -> Map<KeyId, T> {
    Map::new(
        |k: KeyId| k.spec_is_mappable() && s[key_slot(k)] is Some,
        |k: KeyId| s[key_slot(k)]->Some_0,
    )
}

/// Number of filled slots.
pub open spec fn count_some<T>(s: Seq<Option<T>>) -> nat
    decreases s.len(),
{
    if s.len() == 0 {
        0
    } else {
        count_some(s.drop_last()) + if s.last() is Some {
            1nat
        } else {
            0nat
        }
    }
}

spec fn dom_below<T>(s: Seq<Option<T>>, n: int) -> Set<KeyId> {
    Set::new(|k: KeyId| k.spec_is_mappable() && key_slot(k) < n && s[key_slot(k)] is Some)
}

proof fn lemma_dom_below<T>(s: Seq<Option<T>>, n: int)
    requires
        table_wf(s),
        0 <= n <= 256,
    ensures
        dom_below(s, n).finite(),
        dom_below(s, n).len() == count_some(s.take(n)),
    decreases n,
{
    if n == 0 {
        assert(dom_below(s, 0) =~= Set::empty());
        assert(s.take(0) =~= Seq::<Option<T>>::empty());
    } else {
        lemma_dom_below(s, n - 1);
        assert(s.take(n).drop_last() =~= s.take(n - 1));
        let d0 = dom_below(s, n - 1);
        let k = slot_key(n - 1);
        if s[n - 1] is Some {
            assert(slot_is_key(n - 1));
            assert(key_slot(k) == n - 1);
            assert(dom_below(s, n) =~= d0.insert(k));
            assert(!d0.contains(k));
        } else {
            assert forall|k2: KeyId| dom_below(s, n).contains(k2) implies d0.contains(k2) by {
                if key_slot(k2) == n - 1 {
                    assert(s[key_slot(k2)] is Some);
                }
            }
            assert(dom_below(s, n) =~= d0);
        }
    }
}

/// The keys of a table are finitely many, one per filled slot.
pub proof fn lemma_table_len<T>(s: Seq<Option<T>>)
    requires
        table_wf(s),
    ensures
        table_view(s).dom().finite(),
        table_view(s).dom().len() == count_some(s),
{
    lemma_dom_below(s, 256);
    assert(s.take(256) =~= s);
    assert(table_view(s).dom() =~= dom_below(s, 256)) by {
        assert forall|k: KeyId| table_view(s).dom().contains(k) implies key_slot(k) < 256 by {}
    }
}

/// Filling slot `i` adds (or replaces) the key of that slot.
pub proof fn lemma_table_set<T>(s: Seq<Option<T>>, i: int, v: T)
    requires
        table_wf(s),
        slot_is_key(i),
    ensures
        table_wf(s.update(i, Some(v))),
        table_view(s.update(i, Some(v))) =~= table_view(s).insert(slot_key(i), v),
{
    let t = s.update(i, Some(v));
    assert forall|k: KeyId| #![auto] table_view(t).dom().contains(k) <==> table_view(s).insert(
        slot_key(i),
        v,
    ).dom().contains(k) by {
        if k == slot_key(i) {
            assert(key_slot(k) == i);
        } else if k.spec_is_mappable() {
            assert(key_slot(k) != i);
        }
    }
    assert forall|k: KeyId| #![auto] table_view(t).dom().contains(k) implies table_view(t)[k]
        == table_view(s).insert(slot_key(i), v)[k] by {
        if k == slot_key(i) {
            assert(key_slot(k) == i);
        } else {
            assert(key_slot(k) != i);
        }
    }
}

/// Clearing slot `i` removes the key of that slot.
pub proof fn lemma_table_clear<T>(s: Seq<Option<T>>, i: int)
    requires
        table_wf(s),
        0 <= i < 256,
    ensures
        table_wf(s.update(i, None)),
        table_view(s.update(i, None)) =~= table_view(s).remove(slot_key(i)),
{
    let t = s.update(i, None);
    assert forall|k: KeyId| #![auto] table_view(t).dom().contains(k) <==> table_view(s).remove(
        slot_key(i),
    ).dom().contains(k) by {
        if k.spec_is_mappable() && key_slot(k) == i {
            assert(k == slot_key(i));
        }
        if k == slot_key(i) && k.spec_is_mappable() {
            assert(key_slot(k) == i);
        }
    }
    assert forall|k: KeyId| #![auto] table_view(t).dom().contains(k) implies table_view(t)[k]
        == table_view(s).remove(slot_key(i))[k] by {
        assert(key_slot(k) != i);
    }
}

/// The map of a table at a slot.
pub proof fn lemma_table_at<T>(s: Seq<Option<T>>, k: KeyId)
    requires
        table_wf(s),
        k.spec_is_mappable(),
    ensures
        table_view(s).contains_key(k) == (s[key_slot(k)] is Some),
        s[key_slot(k)] is Some ==> table_view(s)[k] == s[key_slot(k)]->Some_0,
{
}

/// A filled slot is the slot of a key in the map.
pub proof fn lemma_table_slot<T>(s: Seq<Option<T>>, i: int)
    requires
        table_wf(s),
        0 <= i < 256,
        s[i] is Some,
    ensures
        table_view(s).contains_key(slot_key(i)),
        table_view(s)[slot_key(i)] == s[i]->Some_0,
        key_slot(slot_key(i)) == i,
{
    assert(slot_is_key(i));
}

/// Rewriting every filled slot with `f` rewrites every value of the map.
pub proof fn lemma_table_map<T>(s: Seq<Option<T>>, t: Seq<Option<T>>, f: spec_fn(T) -> T)
    requires
        table_wf(s),
        t.len() == 256,
        forall|j: int| 0 <= j < 256 ==> (#[trigger] t[j] is Some) == (s[j] is Some),
        forall|j: int| 0 <= j < 256 && s[j] is Some ==> #[trigger] t[j]->Some_0 == f(s[j]->Some_0),
    ensures
        table_wf(t),
        table_view(t) =~= table_view(s).map_values(f),
{
    assert forall|i: int| 0 <= i < 256 && #[trigger] t[i] is Some implies slot_is_key(i) by {
        assert(s[i] is Some);
    }
    assert forall|k: KeyId| #![auto] table_view(t).dom().contains(k) <==> table_view(
        s,
    ).map_values(f).dom().contains(k) by {
        if k.spec_is_mappable() {
            assert(0 <= key_slot(k) < 256);
            assert((t[key_slot(k)] is Some) == (s[key_slot(k)] is Some));
        }
    }
}

/// A table has at most as many keys as slots.
pub proof fn lemma_count_bound<T>(s: Seq<Option<T>>)
    ensures
        count_some(s) <= s.len(),
    decreases s.len(),
{
    if s.len() > 0 {
        lemma_count_bound(s.drop_last());
    }
}

} // verus!
