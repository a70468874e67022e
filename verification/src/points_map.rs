//! The set of points of one upload, keyed by an unsigned integer and kept in
//! the order of the keys.

use std::collections::BTreeMap;
use vstd::prelude::*;
use vstd::std_specs::btree::*;
use vstd::std_specs::cmp::OrdSpec;
use vstd::std_specs::iter::IteratorSpec;
use crate::inline::{
    ascending, inline_text, key_order, lemma_ascending_unique, lemma_lines_push, lemma_take_all,
    lines, lists_keys, points_wf,
};
use crate::point::{Point, PointView};

verus! {

/// A mapping from key to point. Its view is the mapping from each key to the
/// view of its point.
#[derive(Debug, PartialEq, Eq)]
pub struct PointsMap {
    entries: BTreeMap<u32, Point>,
}

impl View for PointsMap {
    type V = Map<u32, PointView>;

    closed spec fn view(&self) -> Map<u32, PointView> {
        self.entries@.map_values(|p: Point| p@)
    }
}

/// The keys that an iteration over `entries` meets, in the order in which it
/// meets them.
spec fn met_keys(entries: Seq<(&u32, &Point)>) -> Seq<u32> {
    entries.map_values(|entry: (&u32, &Point)| *entry.0)
}

impl PointsMap {
    /// The map without an entry.
    pub fn new() -> (m: PointsMap)
        ensures
            m@ == Map::<u32, PointView>::empty(),
    {
        let m = PointsMap { entries: BTreeMap::new() };
        assert(m@ =~= Map::<u32, PointView>::empty());
        m
    }

    /// Puts `point` under `key`, and hands back the point that stood there.
    pub fn insert(&mut self, key: u32, point: Point) -> (former: Option<Point>)
        ensures
            final(self)@ == old(self)@.insert(key, point@),
            match former {
                Some(p) => old(self)@.contains_key(key) && p@ == old(self)@[key],
                None => !old(self)@.contains_key(key),
            },
    {
        broadcast use group_btree_axioms;
        broadcast use vstd::laws_cmp::group_laws_cmp;
        let ghost before = self.entries@;
        let former = self.entries.insert(key, point);
        assert(self.entries@ == before.insert(key, point));
        assert(self@ =~= old(self)@.insert(key, point@));
        former
    }

    /// The point under `key`, if there is one.
    pub fn get(&self, key: u32) -> (found: Option<&Point>)
        ensures
            match found {
                Some(p) => self@.contains_key(key) && p@ == self@[key],
                None => !self@.contains_key(key),
            },
    {
        broadcast use group_btree_axioms;
        broadcast use vstd::laws_cmp::group_laws_cmp;
        self.entries.get(&key)
    }

    /// The number of entries.
    pub fn len(&self) -> (n: usize)
        ensures
            n == self@.len(),
    {
        broadcast use group_btree_axioms;
        broadcast use vstd::laws_cmp::group_laws_cmp;
        assert(self@.dom() =~= self.entries@.dom());
        self.entries.len()
    }

    /// The inline form of the map: the line of each entry, keys ascending.
    /// Every point that it writes is well formed.
    pub fn to_inline(&self) -> (out: Vec<u8>)
        ensures
            out@ == inline_text(self@),
            points_wf(self@),
    {
        broadcast use group_btree_axioms;
        broadcast use vstd::laws_cmp::group_laws_cmp;
        let mut out: Vec<u8> = Vec::new();
        let ghost all = self.entries.iter().remaining();
        let ghost keys = met_keys(all);
        assert(key_obeys_cmp_spec::<u32>());
        for entry in it: self.entries.iter()
            invariant
                it.seq() == all,
                keys == met_keys(all),
                forall|i: int| 0 <= i < all.len() ==> self@.contains_key(*(#[trigger] all[i]).0)
                    && self@[*all[i].0] == (*all[i].1)@,
                out@ == lines(keys.take(it.index()), self@),
                forall|i: int| 0 <= i < it.index() ==> (*(#[trigger] all[i]).1)@.wf(),
        {
            let (key, point) = entry;
            point.write_line(*key, &mut out);
            proof {
                use_type_invariant(&point.x);
                use_type_invariant(&point.y);
                use_type_invariant(&point.z);
                let n = it.index();
                lemma_lines_push(keys.take(n), *key, self@);
                assert(keys.take(n).push(*key) =~= keys.take(n + 1));
            }
        }
        proof {
            lemma_take_all(keys);
            lemma_increasing_is_ascending(keys);
            assert forall|k: u32| self@.contains_key(k) implies keys.contains(k) by {
                assert(all.contains((&k, &self.entries@[k])));
                let i = choose|i: int| 0 <= i < all.len() && all[i] == (&k, &self.entries@[k]);
                assert(keys[i] == k);
            }
            assert forall|k: u32| keys.contains(k) implies self@.contains_key(k) by {
                let i = choose|i: int| 0 <= i < keys.len() && keys[i] == k;
                assert(self@.contains_key(*all[i].0));
            }
            assert(lists_keys(keys, self@));
            assert forall|k: u32| self@.contains_key(k) implies (#[trigger] self@[k]).wf() by {
                assert(keys.contains(k));
                let i = choose|i: int| 0 <= i < keys.len() && keys[i] == k;
                assert((*all[i].1)@.wf());
            }
            lemma_ascending_unique(key_order(self@), keys);
        }
        out
    }
}

/// What the map's iteration promises of its keys is that they ascend.
proof fn lemma_increasing_is_ascending(keys: Seq<u32>)
    requires
        increasing_seq(keys),
    ensures
        ascending(keys),
{
    broadcast use group_btree_axioms;
    broadcast use vstd::laws_cmp::group_laws_cmp;
    assert forall|i: int, j: int| 0 <= i < j < keys.len() implies keys[i] < keys[j] by {
        assert(keys[i].cmp_spec(&keys[j]) is Less);
    }
}

} // verus!
