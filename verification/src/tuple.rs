//! The hybrid tuple container: ordered positional entries first, then
//! named entries indexed by a sorted key array (binary search for lookup).

use vstd::prelude::*;
use crate::sym::Sym;

verus! {

/// A single positional or named entry in a tuple.
#[derive(Debug, PartialEq, Clone)]
pub enum TupleEntry<T> {
    /// A positional tuple entry.
    Pos(T),
    /// A named tuple entry.
    Named(Sym, T),
}

/// A combination of positional and named members.
///
/// `data` holds `data.len() - keys.len()` positional items in insertion
/// order, followed by `keys.len()` named items in the order of the sorted
/// `keys`. Well-formed tuples (everything this API builds) keep `keys`
/// strictly sorted and no longer than `data`.
#[derive(Debug, PartialEq, Clone)]
pub struct Tuple<T> {
    /// Sorted list of keys.
    pub keys: Vec<Sym>,
    /// Tuple data: positional items, then named items matching `keys`.
    pub data: Vec<T>,
}

/// Offset of the first named item: positional count, with a malformed
/// key array (longer than the data) clamped to zero.
pub open spec fn spec_named_offset(keys: Seq<Sym>, data_len: int) -> int {
    if keys.len() <= data_len {
        data_len - keys.len()
    } else {
        0
    }
}

/// Mirror of the binary search that `key_position` and `insert` run over
/// the sorted key array: `Ok` holds a position of `key`, `Err` the
/// insertion point that keeps the array sorted.
pub open spec fn spec_bsearch(keys: Seq<Sym>, key: Sym, lo: int, hi: int) -> Result<int, int>
    decreases hi - lo,
{
    if lo < hi && lo >= 0 && hi <= keys.len() {
        let mid = lo + (hi - lo) / 2;
        if keys[mid].0 < key.0 {
            spec_bsearch(keys, key, mid + 1, hi)
        } else if keys[mid].0 > key.0 {
            spec_bsearch(keys, key, lo, mid)
        } else {
            Ok(mid)
        }
    } else {
        Err(lo)
    }
}

/// Position in `data` of the named item for `key`, if the search finds it.
pub open spec fn spec_key_position(keys: Seq<Sym>, data_len: int, key: Sym) -> Option<int> {
    match spec_bsearch(keys, key, 0, keys.len() as int) {
        Ok(i) => Some(spec_named_offset(keys, data_len) + i),
        Err(_) => None,
    }
}

/// The search stays inside the key array: a hit lies in `[lo, hi)`, an
/// insertion point in `[lo, hi]`.
pub proof fn lemma_bsearch_bounds(keys: Seq<Sym>, key: Sym, lo: int, hi: int)
    requires
        0 <= lo <= hi <= keys.len(),
    ensures
        match spec_bsearch(keys, key, lo, hi) {
            Ok(i) => lo <= i < hi,
            Err(i) => lo <= i <= hi,
        },
    decreases hi - lo,
{
    if lo < hi {
        let mid = lo + (hi - lo) / 2;
        if keys[mid].0 < key.0 {
            lemma_bsearch_bounds(keys, key, mid + 1, hi);
        } else if keys[mid].0 > key.0 {
            lemma_bsearch_bounds(keys, key, lo, mid);
        }
    }
}

/// Strictly sorted key array: the well-formedness every tuple built
/// through `push` and `insert` maintains.
pub open spec fn keys_sorted(keys: Seq<Sym>) -> bool {
    forall|i: int, j: int| 0 <= i < j < keys.len() ==> keys[i].0 < keys[j].0
}

/// A well-formed tuple: sorted unique keys, no more keys than data.
pub open spec fn tuple_wf<T>(keys: Seq<Sym>, data: Seq<T>) -> bool {
    keys_sorted(keys) && keys.len() <= data.len()
}

impl<T> Tuple<T> {
    /// An empty tuple.
    pub fn new() -> (r: Tuple<T>)
        ensures
            r.keys@ == Seq::<Sym>::empty(),
            r.data@ == Seq::<T>::empty(),
    {
        Tuple { keys: Vec::new(), data: Vec::new() }
    }

    /// Total number of entries, positional and named together.
    pub fn len(&self) -> (r: usize)
        ensures
            r == self.data@.len(),
    {
        self.data.len()
    }

    /// Number of named entries.
    pub fn keys_len(&self) -> (r: usize)
        ensures
            r == self.keys@.len(),
    {
        self.keys.len()
    }

    /// Offset of the first named item in `data`.
    fn named_offset(&self) -> (r: usize)
        ensures
            r == spec_named_offset(self.keys@, self.data@.len() as int),
    {
        if self.keys.len() <= self.data.len() {
            self.data.len() - self.keys.len()
        } else {
            0
        }
    }

    /// Position in `data` of the named item for `key`, by binary search
    /// over the sorted key array.
    #[verifier::loop_isolation(false)]
    pub fn key_position(&self, key: Sym) -> (r: Option<usize>)
        ensures
            r == match spec_key_position(self.keys@, self.data@.len() as int, key) {
                Some(i) => Some(i as usize),
                None => None::<usize>,
            },
    {
        proof {
            vstd::std_specs::vec::axiom_spec_len(&self.data);
            vstd::std_specs::vec::axiom_spec_len(&self.keys);
        }
        let offset = self.named_offset();
        let mut lo: usize = 0;
        let mut hi: usize = self.keys.len();
        while lo < hi
            invariant
                lo <= hi <= self.keys@.len(),
                spec_bsearch(self.keys@, key, 0, self.keys@.len() as int) == spec_bsearch(
                    self.keys@,
                    key,
                    lo as int,
                    hi as int,
                ),
            decreases hi - lo,
        {
            let mid = lo + (hi - lo) / 2;
            if self.keys[mid].0 < key.0 {
                lo = mid + 1;
            } else if self.keys[mid].0 > key.0 {
                hi = mid;
            } else {
                return Some(offset + mid);
            }
        }
        None
    }

    /// The entry at position `i` of `data`; positional indexing runs over
    /// the whole data array, so named items are reachable by index too.
    pub fn get_pos(&self, i: usize) -> (r: Option<&T>)
        ensures
            r == if i < self.data@.len() {
                Some(&self.data@[i as int])
            } else {
                None::<&T>
            },
    {
        if i < self.data.len() {
            Some(&self.data[i])
        } else {
            None
        }
    }

    /// The named entry for `key`, by binary search: O(log k).
    pub fn get_named(&self, key: Sym) -> (r: Option<&T>)
        ensures
            r == match spec_key_position(self.keys@, self.data@.len() as int, key) {
                Some(i) => if 0 <= i < self.data@.len() {
                    Some(&self.data@[i])
                } else {
                    None::<&T>
                },
                None => None::<&T>,
            },
    {
        proof {
            vstd::std_specs::vec::axiom_spec_len(&self.data);
            vstd::std_specs::vec::axiom_spec_len(&self.keys);
            lemma_bsearch_bounds(self.keys@, key, 0, self.keys@.len() as int);
        }
        match self.key_position(key) {
            Some(i) => {
                if i < self.data.len() {
                    Some(&self.data[i])
                } else {
                    None
                }
            }
            None => None,
        }
    }

    /// Appends a positional entry after the existing positional items.
    pub fn push(&mut self, value: T)
        ensures
            final(self).keys@ == old(self).keys@,
            final(self).data@ == old(self).data@.insert(
                spec_named_offset(old(self).keys@, old(self).data@.len() as int),
                value,
            ),
    {
        let offset = self.named_offset();
        self.data.insert(offset, value);
    }

    /// Inserts a named entry; an entry already present under `key` is
    /// replaced and returned.
    pub fn insert(&mut self, key: Sym, value: T) -> (r: Option<T>)
        ensures
            ({
                let keys = old(self).keys@;
                let data = old(self).data@;
                let ofs = spec_named_offset(keys, data.len() as int);
                match spec_bsearch(keys, key, 0, keys.len() as int) {
                    Ok(i) => if ofs + i < data.len() {
                        final(self).keys@ == keys && final(self).data@ == data.update(
                            ofs + i,
                            value,
                        ) && r == Some(data[ofs + i])
                    } else {
                        final(self).keys@ == keys && final(self).data@ == data.push(value) && r
                            == None::<T>
                    },
                    Err(i) => final(self).keys@ == keys.insert(i, key) && final(self).data@
                        == data.insert(
                        if ofs + i <= data.len() {
                            ofs + i
                        } else {
                            data.len() as int
                        },
                        value,
                    ) && r == None::<T>,
                }
            }),
    {
        proof {
            vstd::std_specs::vec::axiom_spec_len(&self.data);
            vstd::std_specs::vec::axiom_spec_len(&self.keys);
            lemma_bsearch_bounds(self.keys@, key, 0, self.keys@.len() as int);
        }
        let offset = self.named_offset();
        match self.bsearch(key) {
            Ok(i) => {
                if offset + i < self.data.len() {
                    let old_value = self.data.remove(offset + i);
                    self.data.insert(offset + i, value);
                    proof {
                        assert(self.data@ =~= old(self).data@.update(offset + i, value));
                    }
                    Some(old_value)
                } else {
                    self.data.push(value);
                    proof {
                        assert(self.data@ =~= old(self).data@.push(value));
                    }
                    None
                }
            }
            Err(i) => {
                self.keys.insert(i, key);
                let at = if offset + i <= self.data.len() {
                    offset + i
                } else {
                    self.data.len()
                };
                self.data.insert(at, value);
                None
            }
        }
    }

    /// Binary search over the key array, as `spec_bsearch` describes.
    #[verifier::loop_isolation(false)]
    fn bsearch(&self, key: Sym) -> (r: Result<usize, usize>)
        ensures
            r == match spec_bsearch(self.keys@, key, 0, self.keys@.len() as int) {
                Ok(i) => Ok::<usize, usize>(i as usize),
                Err(i) => Err::<usize, usize>(i as usize),
            },
    {
        let mut lo: usize = 0;
        let mut hi: usize = self.keys.len();
        while lo < hi
            invariant
                lo <= hi <= self.keys@.len(),
                spec_bsearch(self.keys@, key, 0, self.keys@.len() as int) == spec_bsearch(
                    self.keys@,
                    key,
                    lo as int,
                    hi as int,
                ),
            decreases hi - lo,
        {
            let mid = lo + (hi - lo) / 2;
            if self.keys[mid].0 < key.0 {
                lo = mid + 1;
            } else if self.keys[mid].0 > key.0 {
                hi = mid;
            } else {
                return Ok(mid);
            }
        }
        Err(lo)
    }

    /// The entry at position `i`: positional below the named offset, named
    /// with its key above it.
    pub fn entry(&self, i: usize) -> (r: Option<TupleEntry<&T>>)
        ensures
            r == match spec_entry(self.keys@, self.data@, i as int) {
                Some(TupleEntry::Pos(j)) => Some(TupleEntry::Pos(&self.data@[j])),
                Some(TupleEntry::Named(k, j)) => Some(TupleEntry::Named(k, &self.data@[j])),
                None => None::<TupleEntry<&T>>,
            },
    {
        if i >= self.data.len() {
            return None;
        }
        let offset = self.named_offset();
        if i < offset {
            Some(TupleEntry::Pos(&self.data[i]))
        } else {
            Some(TupleEntry::Named(self.keys[i - offset], &self.data[i]))
        }
    }
}

/// The shape of the entry at position `i`: positional or named with its
/// key, holding the data index.
pub open spec fn spec_entry<T>(keys: Seq<Sym>, data: Seq<T>, i: int) -> Option<TupleEntry<int>> {
    if 0 <= i < data.len() {
        let ofs = spec_named_offset(keys, data.len() as int);
        if i < ofs {
            Some(TupleEntry::Pos(i))
        } else {
            Some(TupleEntry::Named(keys[i - ofs], i))
        }
    } else {
        None
    }
}


/// The spec-level shape of a tuple: its sorted keys and its data.
pub struct SpecTuple<V> {
    pub keys: Seq<Sym>,
    pub data: Seq<V>,
}

/// The empty tuple shape.
pub open spec fn spec_tuple_empty<V>() -> SpecTuple<V> {
    SpecTuple { keys: Seq::empty(), data: Seq::empty() }
}

/// What `push` does to a tuple shape.
pub open spec fn spec_tuple_push<V>(t: SpecTuple<V>, v: V) -> SpecTuple<V> {
    SpecTuple {
        keys: t.keys,
        data: t.data.insert(spec_named_offset(t.keys, t.data.len() as int), v),
    }
}

/// What `insert` does to a tuple shape.
pub open spec fn spec_tuple_insert<V>(t: SpecTuple<V>, key: Sym, v: V) -> SpecTuple<V> {
    let ofs = spec_named_offset(t.keys, t.data.len() as int);
    match spec_bsearch(t.keys, key, 0, t.keys.len() as int) {
        Ok(i) => if ofs + i < t.data.len() {
            SpecTuple { keys: t.keys, data: t.data.update(ofs + i, v) }
        } else {
            SpecTuple { keys: t.keys, data: t.data.push(v) }
        },
        Err(i) => SpecTuple {
            keys: t.keys.insert(i, key),
            data: t.data.insert(
                if ofs + i <= t.data.len() {
                    ofs + i
                } else {
                    t.data.len() as int
                },
                v,
            ),
        },
    }
}

/// The tuple shape that collecting `entries` in order builds: positional
/// entries push, named entries insert.
pub open spec fn spec_from_entries<V>(entries: Seq<TupleEntry<V>>) -> SpecTuple<V>
    decreases entries,
{
    if entries.len() == 0 {
        spec_tuple_empty()
    } else {
        let rest = spec_from_entries(entries.drop_last());
        match entries.last() {
            TupleEntry::Pos(v) => spec_tuple_push(rest, v),
            TupleEntry::Named(k, v) => spec_tuple_insert(rest, k, v),
        }
    }
}

impl<T> Tuple<T> {
    /// Collects entries in order into a tuple, as the parser does for
    /// tuple expressions, call arguments and parameter lists.
    #[verifier::loop_isolation(false)]
    pub fn from_entries(entries: Vec<TupleEntry<T>>) -> (r: Tuple<T>)
        ensures
            ({
                let t = spec_from_entries(entries@);
                r.keys@ == t.keys && r.data@ == t.data
            }),
    {
        let total = entries.len();
        let mut rest = entries;
        let mut t: Tuple<T> = Tuple::new();
        proof {
            assert(entries@.take(0) =~= Seq::<TupleEntry<T>>::empty());
        }
        let mut i: usize = 0;
        while rest.len() > 0
            invariant
                i <= total,
                i + rest@.len() == entries@.len(),
                rest@ == entries@.subrange(i as int, entries@.len() as int),
                ({
                    let s = spec_from_entries(entries@.take(i as int));
                    t.keys@ == s.keys && t.data@ == s.data
                }),
            decreases rest.len(),
        {
            let entry = rest.remove(0);
            proof {
                assert(entries@.take(i + 1).drop_last() =~= entries@.take(i as int));
                assert(entries@.take(i + 1).last() == entries@[i as int]);
                assert(rest@ =~= entries@.subrange(i + 1, entries@.len() as int));
            }
            match entry {
                TupleEntry::Pos(v) => {
                    t.push(v);
                }
                TupleEntry::Named(k, v) => {
                    let _replaced = t.insert(k, v);
                }
            }
            i = i + 1;
        }
        proof {
            assert(entries@.take(entries@.len() as int) =~= entries@);
        }
        t
    }
}

} // verus!
