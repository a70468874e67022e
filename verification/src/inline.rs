//! The inline form of a set of points: one line per key, keys ascending.

use vstd::prelude::*;
use crate::point::{line, PointView};

verus! {

/// Whether `keys` rises strictly from each element to the next.
pub open spec fn ascending(keys: Seq<u32>) -> bool {
    forall|i: int, j: int| 0 <= i < j < keys.len() ==> keys[i] < keys[j]
}

/// Whether `keys` lists the keys of `m`: each of them, in ascending order,
/// and nothing else.
pub open spec fn lists_keys(keys: Seq<u32>, m: Map<u32, PointView>) -> bool {
    &&& ascending(keys)
    &&& forall|k: u32| m.contains_key(k) <==> keys.contains(k)
}

/// The keys of `m` in ascending order.
pub open spec fn key_order(m: Map<u32, PointView>) -> Seq<u32> {
    choose|keys: Seq<u32>| lists_keys(keys, m)
}

/// The lines of the entries of `m` under `keys`, in the order of `keys`.
pub open spec fn lines(keys: Seq<u32>, m: Map<u32, PointView>) -> Seq<u8>
    decreases keys.len(),
{
    if keys.len() == 0 {
        Seq::empty()
    } else {
        lines(keys.drop_last(), m) + line(keys.last(), m[keys.last()])
    }
}

/// The inline form of `m`: the line of each entry, keys ascending.
pub open spec fn inline_text(m: Map<u32, PointView>) -> Seq<u8> {
    lines(key_order(m), m)
}

/// Whether every point of `m` is well formed.
pub open spec fn points_wf(m: Map<u32, PointView>) -> bool {
    forall|k: u32| m.contains_key(k) ==> (#[trigger] m[k]).wf()
}

/// Two ascending sequences with the same elements are the same sequence.
pub proof fn lemma_ascending_unique(a: Seq<u32>, b: Seq<u32>)
    requires
        ascending(a),
        ascending(b),
        forall|k: u32| a.contains(k) <==> b.contains(k),
    ensures
        a == b,
    decreases a.len(),
{
    if a.len() == 0 {
        if b.len() > 0 {
            assert(b.contains(b[0]));
        }
        assert(a =~= b);
    } else {
        assert(a.contains(a.last()));
        assert(b.len() > 0);
        assert(b.contains(b.last()));
        let i = choose|i: int| 0 <= i < b.len() && b[i] == a.last();
        let j = choose|j: int| 0 <= j < a.len() && a[j] == b.last();
        assert(a.last() == b.last());
        let a0 = a.drop_last();
        let b0 = b.drop_last();
        assert forall|k: u32| a0.contains(k) <==> b0.contains(k) by {
            if a0.contains(k) {
                let n = choose|n: int| 0 <= n < a0.len() && a0[n] == k;
                assert(a[n] == k);
                assert(a.contains(k));
                let m = choose|m: int| 0 <= m < b.len() && b[m] == k;
                assert(m < b.len() - 1);
                assert(b0[m] == k);
            }
            if b0.contains(k) {
                let n = choose|n: int| 0 <= n < b0.len() && b0[n] == k;
                assert(b[n] == k);
                assert(b.contains(k));
                let m = choose|m: int| 0 <= m < a.len() && a[m] == k;
                assert(m < a.len() - 1);
                assert(a0[m] == k);
            }
        }
        lemma_ascending_unique(a0, b0);
        assert(a =~= a0.push(a.last()));
        assert(b =~= b0.push(b.last()));
    }
}

/// The inline form follows any ascending list of the keys: its lines stand
/// in that order, one for each key and none besides.
pub proof fn lemma_inline_text_follows_keys(m: Map<u32, PointView>, keys: Seq<u32>)
    requires
        lists_keys(keys, m),
    ensures
        key_order(m) == keys,
        inline_text(m) == lines(keys, m),
{
    lemma_ascending_unique(key_order(m), keys);
}

/// The lines of a list grow by the line of the key that is added at its end.
pub proof fn lemma_lines_push(keys: Seq<u32>, key: u32, m: Map<u32, PointView>)
    ensures
        lines(keys.push(key), m) == lines(keys, m) + line(key, m[key]),
{
    assert(keys.push(key).drop_last() =~= keys);
}

/// The keys of `m` below `bound`, in ascending order.
pub open spec fn keys_below(m: Map<u32, PointView>, bound: nat) -> Seq<u32>
    decreases bound,
{
    if bound == 0 {
        Seq::empty()
    } else {
        let key = (bound - 1) as u32;
        if m.contains_key(key) {
            keys_below(m, (bound - 1) as nat).push(key)
        } else {
            keys_below(m, (bound - 1) as nat)
        }
    }
}

/// `keys_below` ascends and holds the keys below the bound, and only them.
pub proof fn lemma_keys_below(m: Map<u32, PointView>, bound: nat)
    requires
        bound <= 0x1_0000_0000,
    ensures
        ascending(keys_below(m, bound)),
        forall|k: u32| keys_below(m, bound).contains(k) <==> m.contains_key(k) && k < bound,
    decreases bound,
{
    if bound > 0 {
        let fewer = keys_below(m, (bound - 1) as nat);
        let key = (bound - 1) as u32;
        lemma_keys_below(m, (bound - 1) as nat);
        assert forall|i: int| 0 <= i < fewer.len() implies #[trigger] fewer[i] < key by {
            let k = fewer[i];
            assert(fewer.contains(k));
            assert(m.contains_key(k) && k < bound - 1);
        }
        let keys = keys_below(m, bound);
        assert forall|k: u32| keys.contains(k) <==> m.contains_key(k) && k < bound by {
            if keys.contains(k) {
                let i = choose|i: int| 0 <= i < keys.len() && keys[i] == k;
                if i < fewer.len() {
                    assert(fewer[i] == k);
                    assert(fewer.contains(k));
                }
            }
            if m.contains_key(k) && k < bound {
                if k == key {
                    assert(keys[keys.len() - 1] == k);
                } else {
                    assert(fewer.contains(k));
                    let i = choose|i: int| 0 <= i < fewer.len() && fewer[i] == k;
                    assert(keys[i] == k);
                }
            }
        }
    }
}

/// The inline form of any map has one line for each key and none besides, in
/// strictly ascending order of the keys: `key_order` ascends, holds no key
/// twice, and holds a number if and only if it is a key of the map.
pub proof fn lemma_key_order_lists_keys(m: Map<u32, PointView>)
    ensures
        inline_text(m) == lines(key_order(m), m),
        lists_keys(key_order(m), m),
        ascending(key_order(m)),
        key_order(m).no_duplicates(),
        forall|k: u32| m.contains_key(k) <==> key_order(m).contains(k),
{
    lemma_keys_below(m, 0x1_0000_0000);
    assert(lists_keys(keys_below(m, 0x1_0000_0000), m));
}

/// To take as many elements as a sequence has is to take the sequence.
pub proof fn lemma_take_all(keys: Seq<u32>)
    ensures
        keys.take(keys.len() as int) == keys,
{
    assert(keys.take(keys.len() as int) =~= keys);
}

} // verus!
