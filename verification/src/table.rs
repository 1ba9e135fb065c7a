use vstd::prelude::*;

use crate::ids::{lemma_bytes_lt_asymmetric, lemma_bytes_lt_transitive, bytes_lt, KeyOrder, TableKey};

verus! {

/// Keys in strictly increasing byte order (so no key occurs twice).
pub open spec fn keys_sorted<K: TableKey>(keys: Seq<K>) -> bool {
    forall|i: int, j: int|
        0 <= i < j < keys.len() ==> bytes_lt(#[trigger] keys[i].key_bytes(), #[trigger] keys[j].key_bytes())
}

/// Whether `k` belongs strictly between the keys before position `p` and those from `p` on.
pub open spec fn fits_at<K: TableKey>(keys: Seq<K>, p: int, k: K) -> bool {
    &&& 0 <= p <= keys.len()
    &&& forall|j: int| 0 <= j < p ==> bytes_lt(#[trigger] keys[j].key_bytes(), k.key_bytes())
    &&& forall|j: int| p <= j < keys.len() ==> bytes_lt(k.key_bytes(), #[trigger] keys[j].key_bytes())
}

/// In sorted keys, equal keys sit at equal positions.
pub proof fn lemma_sorted_unique<K: TableKey>(keys: Seq<K>, i: int, j: int)
    requires
        keys_sorted(keys),
        0 <= i < keys.len(),
        0 <= j < keys.len(),
        keys[i] == keys[j],
    ensures
        i == j,
{
    if i < j {
        lemma_bytes_lt_asymmetric(keys[i].key_bytes(), keys[j].key_bytes());
    } else if j < i {
        lemma_bytes_lt_asymmetric(keys[j].key_bytes(), keys[i].key_bytes());
    }
}

/// A key fits at one position at most.
pub proof fn lemma_fits_unique<K: TableKey>(keys: Seq<K>, p: int, q: int, k: K)
    requires
        fits_at(keys, p, k),
        fits_at(keys, q, k),
    ensures
        p == q,
{
    if p < q {
        assert(bytes_lt(keys[p].key_bytes(), k.key_bytes()));
        assert(bytes_lt(k.key_bytes(), keys[p].key_bytes()));
        lemma_bytes_lt_asymmetric(k.key_bytes(), keys[p].key_bytes());
    } else if q < p {
        assert(bytes_lt(keys[q].key_bytes(), k.key_bytes()));
        assert(bytes_lt(k.key_bytes(), keys[q].key_bytes()));
        lemma_bytes_lt_asymmetric(k.key_bytes(), keys[q].key_bytes());
    }
}

/// A key that fits at a position is not among the keys.
pub proof fn lemma_fits_absent<K: TableKey>(keys: Seq<K>, p: int, k: K)
    requires
        fits_at(keys, p, k),
    ensures
        !keys.contains(k),
{
    if keys.contains(k) {
        let j = choose|j: int| 0 <= j < keys.len() && keys[j] == k;
        if j < p {
            assert(bytes_lt(keys[j].key_bytes(), k.key_bytes()));
            lemma_bytes_lt_asymmetric(k.key_bytes(), k.key_bytes());
        } else {
            assert(bytes_lt(k.key_bytes(), keys[j].key_bytes()));
            lemma_bytes_lt_asymmetric(k.key_bytes(), k.key_bytes());
        }
    }
}

/// Inserting a key where it fits keeps the keys sorted.
pub proof fn lemma_insert_sorted<K: TableKey>(keys: Seq<K>, p: int, k: K)
    requires
        keys_sorted(keys),
        fits_at(keys, p, k),
    ensures
        keys_sorted(keys.insert(p, k)),
{
    let n = keys.insert(p, k);
    assert forall|i: int, j: int| 0 <= i < j < n.len() implies bytes_lt(
        #[trigger] n[i].key_bytes(),
        #[trigger] n[j].key_bytes(),
    ) by {
        if j < p {
            assert(n[i] == keys[i] && n[j] == keys[j]);
        } else if j == p {
            assert(n[i] == keys[i]);
        } else if i < p {
            assert(n[i] == keys[i] && n[j] == keys[j - 1]);
            assert(bytes_lt(keys[i].key_bytes(), k.key_bytes()));
            assert(bytes_lt(k.key_bytes(), keys[j - 1].key_bytes()));
            lemma_bytes_lt_transitive(keys[i].key_bytes(), k.key_bytes(), keys[j - 1].key_bytes());
        } else if i == p {
            assert(n[j] == keys[j - 1]);
        } else {
            assert(n[i] == keys[i - 1] && n[j] == keys[j - 1]);
        }
    }
}

/// In sorted keys, `index_of` finds a key at its own position.
pub proof fn lemma_index_of_sorted<K: TableKey>(keys: Seq<K>, i: int)
    requires
        keys_sorted(keys),
        0 <= i < keys.len(),
    ensures
        keys.contains(keys[i]),
        keys.index_of(keys[i]) == i,
{
    assert(keys[i] == keys[i]);
    let j = keys.index_of(keys[i]);
    lemma_sorted_unique(keys, i, j);
}

/// A table of values kept in increasing key order, with no key twice.
///
/// The ledger keeps its accounts, tickets and processed transactions here
/// rather than in a `BTreeMap` or `BTreeSet`: vstd specifies those only for
/// key types whose `Ord` is shown to obey its model, and the order of the
/// identifiers, derived over their bytes, cannot be shown to. The table
/// orders its keys by their bytes, the order in which the ledger's state is
/// encoded, and proves every operation against that order.
#[derive(Clone, Debug, PartialEq, Eq)]
pub struct Table<K, V> {
    keys: Vec<K>,
    vals: Vec<V>,
}

impl<K: TableKey, V: Copy> Table<K, V> {
    /// The keys, in increasing order.
    pub closed spec fn keys(&self) -> Seq<K> {
        self.keys@
    }

    /// The values, each at the position of its key.
    pub closed spec fn vals(&self) -> Seq<V> {
        self.vals@
    }

    /// One value per key, and the keys sorted.
    pub open spec fn wf(&self) -> bool {
        &&& self.keys().len() == self.vals().len()
        &&& keys_sorted(self.keys())
    }

    /// The empty table.
    pub fn new() -> (t: Self)
        ensures
            t.keys() == Seq::<K>::empty(),
            t.vals() == Seq::<V>::empty(),
            t.wf(),
    {
        Table { keys: Vec::new(), vals: Vec::new() }
    }

    /// The number of entries.
    pub fn len(&self) -> (n: usize)
        ensures
            n == self.keys().len(),
    {
        self.keys.len()
    }

    /// The number of values.
    pub fn val_count(&self) -> (n: usize)
        ensures
            n == self.vals().len(),
    {
        self.vals.len()
    }

    /// The position of `k`, or the position where it would fit.
    pub fn find(&self, k: &K) -> (r: Result<usize, usize>)
        requires
            self.wf(),
        ensures
            r matches Ok(i) ==> i < self.keys().len() && self.keys()[i as int] == *k,
            r matches Ok(i) ==> self.keys().contains(*k),
            r matches Err(p) ==> fits_at(self.keys(), p as int, *k) && !self.keys().contains(*k),
    {
        let n = self.keys.len();
        let mut i: usize = 0;
        while i < n
            invariant
                n == self.keys@.len(),
                self.wf(),
                i <= n,
                forall|j: int| 0 <= j < i ==> bytes_lt(#[trigger] self.keys@[j].key_bytes(), k.key_bytes()),
            decreases n - i,
        {
            match k.key_compare(&self.keys[i]) {
                KeyOrder::Equal => {
                    return Ok(i);
                },
                KeyOrder::Less => {
                    proof {
                        assert forall|j: int| i <= j < n implies bytes_lt(
                            k.key_bytes(),
                            #[trigger] self.keys@[j].key_bytes(),
                        ) by {
                            if j > i {
                                assert(bytes_lt(self.keys@[i as int].key_bytes(), self.keys@[j].key_bytes()));
                                lemma_bytes_lt_transitive(
                                    k.key_bytes(),
                                    self.keys@[i as int].key_bytes(),
                                    self.keys@[j].key_bytes(),
                                );
                            }
                        }
                        lemma_fits_absent(self.keys@, i as int, *k);
                    }
                    return Err(i);
                },
                KeyOrder::Greater => {},
            }
            i = i + 1;
        }
        proof {
            lemma_fits_absent(self.keys@, n as int, *k);
        }
        Err(n)
    }

    /// The key at position `i`.
    pub fn key_at(&self, i: usize) -> (k: K)
        requires
            i < self.keys().len(),
        ensures
            k == self.keys()[i as int],
    {
        self.keys[i]
    }

    /// The value at position `i`.
    pub fn val_at(&self, i: usize) -> (v: &V)
        requires
            i < self.vals().len(),
        ensures
            *v == self.vals()[i as int],
    {
        &self.vals[i]
    }

    /// Inserts an entry at a position where its key fits.
    pub fn insert_at(&mut self, p: usize, k: K, v: V)
        requires
            old(self).wf(),
            fits_at(old(self).keys(), p as int, k),
        ensures
            final(self).wf(),
            final(self).keys() == old(self).keys().insert(p as int, k),
            final(self).vals() == old(self).vals().insert(p as int, v),
    {
        proof {
            lemma_insert_sorted(self.keys@, p as int, k);
        }
        self.keys.insert(p, k);
        self.vals.insert(p, v);
    }

    /// Replaces the value at position `i`.
    pub fn set_at(&mut self, i: usize, v: V)
        requires
            old(self).wf(),
            i < old(self).vals().len(),
        ensures
            final(self).wf(),
            final(self).keys() == old(self).keys(),
            final(self).vals() == old(self).vals().update(i as int, v),
    {
        self.vals.set(i, v);
    }

    /// A copy of the table.
    pub fn copy(&self) -> (t: Self)
        ensures
            t.keys() == self.keys(),
            t.vals() == self.vals(),
    {
        let mut keys: Vec<K> = Vec::new();
        let mut vals: Vec<V> = Vec::new();
        let n = self.keys.len();
        let m = self.vals.len();
        let mut i: usize = 0;
        while i < n
            invariant
                n == self.keys@.len(),
                i <= n,
                keys@ == self.keys@.take(i as int),
            decreases n - i,
        {
            keys.push(self.keys[i]);
            i = i + 1;
            assert(keys@ =~= self.keys@.take(i as int));
        }
        let mut j: usize = 0;
        while j < m
            invariant
                m == self.vals@.len(),
                j <= m,
                vals@ == self.vals@.take(j as int),
            decreases m - j,
        {
            vals.push(self.vals[j]);
            j = j + 1;
            assert(vals@ =~= self.vals@.take(j as int));
        }
        assert(keys@ =~= self.keys@);
        assert(vals@ =~= self.vals@);
        Table { keys, vals }
    }
}

} // verus!
