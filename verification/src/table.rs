//! Keyed storage with history.
//!
//! A [`Table`] records every write as an entry `(key, height, value)` where a
//! value of `None` is a removal. The current content of a key is the value of
//! its last write; the content "at height h" is the value of its last write
//! made at a height below `h`, which is what a snapshot store answers for the
//! state at the beginning of block `h`.
use crate::model::{Duplicate, StoreKey};
use vstd::prelude::*;

verus! {

/// Model of one write of a table.
pub type Write<K, V> = (K, u64, Option<V>);

/// The value of the last write for `k` among the entries of `s` whose height
/// is below `bound` (`None` if there is no such write, or if it was a removal).
pub open spec fn latest<K, V>(s: Seq<Write<K, V>>, k: K, bound: int) -> Option<V>
    decreases s.len(),
{
    if s.len() == 0 {
        None
    } else if s.last().0 == k && (s.last().1 as int) < bound {
        s.last().2
    } else {
        latest(s.drop_last(), k, bound)
    }
}

/// What a write adds to the history: the written key answers the written
/// value for every bound above the write's height, other keys are unchanged.
pub proof fn lemma_latest_push<K, V>(s: Seq<Write<K, V>>, w: Write<K, V>, k: K, bound: int)
    ensures
        latest(s.push(w), k, bound) == (if w.0 == k && (w.1 as int) < bound {
            w.2
        } else {
            latest(s, k, bound)
        }),
{
    assert(s.push(w).drop_last() =~= s);
}

/// A bound above every height.
pub open spec fn no_bound() -> int {
    u64::MAX as int + 1
}

pub struct Table<K, V> {
    log: Vec<(K, u64, Option<V>)>,
}

impl<K: StoreKey, V: Duplicate> Table<K, V> {
    /// Every write made to the table, in order, by model.
    pub closed spec fn writes(&self) -> Seq<Write<K::V, V::V>> {
        self.log.deep_view()
    }

    /// Current content of key `k`.
    pub open spec fn get(&self, k: K::V) -> Option<V::V> {
        latest(self.writes(), k, no_bound())
    }

    /// Content of key `k` at the beginning of block `h`.
    pub open spec fn get_at(&self, k: K::V, h: u64) -> Option<V::V> {
        latest(self.writes(), k, h as int)
    }

    /// The current content as a map.
    pub open spec fn view_map(&self) -> Map<K::V, V::V> {
        Map::new(|k: K::V| self.get(k) is Some, |k: K::V| self.get(k)->Some_0)
    }

    /// `self` was obtained from `other` by further writes only.
    pub open spec fn extends(&self, other: &Self) -> bool {
        &&& other.writes().len() <= self.writes().len()
        &&& self.writes().subrange(0, other.writes().len() as int) == other.writes()
    }

    pub open spec fn len_spec(&self) -> nat {
        self.writes().len()
    }

    pub fn new() -> (t: Self)
        ensures
            t.writes() == Seq::<Write<K::V, V::V>>::empty(),
            forall|k: K::V| #[trigger] t.get(k) is None,
    {
        let t = Table { log: Vec::new() };
        assert(t.writes() =~= Seq::<Write<K::V, V::V>>::empty());
        t
    }

    /// The table whose history is `log`, as [`Table::write_log`] gives it.
    pub fn from_writes(log: Vec<(K, u64, Option<V>)>) -> (t: Self)
        ensures
            t.writes() == log.deep_view(),
    {
        Table { log }
    }

    /// The history of the table: every write, in order.
    pub fn write_log(&self) -> (r: &Vec<(K, u64, Option<V>)>)
        ensures
            r.deep_view() == self.writes(),
    {
        &self.log
    }

    /// Number of writes recorded so far.
    pub fn mark(&self) -> (m: usize)
        ensures
            m == self.writes().len(),
    {
        self.log.len()
    }

    /// Forgets the writes made after the table had `m` writes.
    pub fn rollback(&mut self, m: usize)
        requires
            m <= old(self).writes().len(),
        ensures
            final(self).writes() == old(self).writes().subrange(0, m as int),
    {
        self.log.truncate(m);
        assert(self.writes() =~= old(self).writes().subrange(0, m as int));
    }

    proof fn lemma_latest_skip(s: Seq<Write<K::V, V::V>>, k: K::V, bound: int, i: int)
        requires
            0 <= i <= s.len(),
            forall|j: int| i <= j < s.len() ==> !(#[trigger] s[j].0 == k && (s[j].1 as int) < bound),
        ensures
            latest(s, k, bound) == latest(s.subrange(0, i), k, bound),
        decreases s.len() - i,
    {
        if i < s.len() {
            assert(s.drop_last() =~= s.subrange(0, s.len() - 1));
            Self::lemma_latest_skip(s.drop_last(), k, bound, i);
            assert(s.drop_last().subrange(0, i) =~= s.subrange(0, i));
        } else {
            assert(s.subrange(0, i) =~= s);
        }
    }

    fn find(&self, k: &K, bound: u128) -> (r: Option<V>)
        ensures
            r.deep_view() == latest(self.writes(), k.deep_view(), bound as int),
    {
        let ghost s = self.writes();
        let mut i: usize = self.log.len();
        while i > 0
            invariant
                i <= self.log.len(),
                s == self.writes(),
                s.len() == self.log.len(),
                forall|j: int| i <= j < s.len() ==> !(#[trigger] s[j].0 == k.deep_view() && (s[j].1 as int) < bound as int),
            decreases i,
        {
            let e = &self.log[i - 1];
            assert(s[i - 1] == e.deep_view());
            if e.0.same_key(k) && (e.1 as u128) < bound {
                proof {
                    Self::lemma_latest_skip(s, k.deep_view(), bound as int, i as int);
                    assert(s.subrange(0, i as int).drop_last() =~= s.subrange(0, i - 1));
                }
                return e.2.duplicate();
            }
            i = i - 1;
        }
        proof {
            Self::lemma_latest_skip(s, k.deep_view(), bound as int, 0);
        }
        None
    }

    /// Current content of key `k`.
    pub fn load(&self, k: &K) -> (r: Option<V>)
        ensures
            r.deep_view() == self.get(k.deep_view()),
    {
        self.find(k, 0x1_0000_0000_0000_0000u128)
    }

    /// Content of key `k` at the beginning of block `height`.
    pub fn load_at_height(&self, k: &K, height: u64) -> (r: Option<V>)
        ensures
            r.deep_view() == self.get_at(k.deep_view(), height),
    {
        self.find(k, height as u128)
    }

    /// Records a write of `v` (or a removal, for `None`) for key `k` at `height`.
    pub fn write(&mut self, k: K, height: u64, v: Option<V>)
        ensures
            final(self).writes() == old(self).writes().push((k.deep_view(), height, v.deep_view())),
            final(self).extends(old(self)),
    {
        self.log.push((k, height, v));
        assert(self.writes() =~= old(self).writes().push((k.deep_view(), height, v.deep_view())));
        assert(self.writes().subrange(0, old(self).writes().len() as int) =~= old(self).writes());
    }

    /// Stores `v` under `k`, at `height`.
    pub fn save(&mut self, k: K, v: V, height: u64)
        ensures
            final(self).writes() == old(self).writes().push((k.deep_view(), height, Some(v.deep_view()))),
            final(self).extends(old(self)),
    {
        self.write(k, height, Some(v));
    }

    /// Removes `k`, at `height`.
    pub fn remove(&mut self, k: K, height: u64)
        ensures
            final(self).writes() == old(self).writes().push((k.deep_view(), height, None)),
            final(self).extends(old(self)),
    {
        self.write(k, height, None);
    }
}

} // verus!
