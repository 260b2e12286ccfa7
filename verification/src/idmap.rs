//! A single-valued mapping from identifier to record, built by insertion;
//! duplicate keys overwrite, last write wins — a documented behavior of
//! the indexer, not an accident.
use vstd::prelude::*;

verus! {

use crate::text::str_eq_value;

/// The mapping that a sequence of records induces under a key function:
/// every record is inserted in order, so the last record with a key wins.
pub open spec fn id_map_of<T>(s: Seq<T>, key: spec_fn(T) -> Seq<char>) -> Map<Seq<char>, T>
    decreases s.len(),
{
    if s.len() == 0 {
        Map::<Seq<char>, T>::empty()
    } else {
        id_map_of(s.drop_last(), key).insert(key(s.last()), s.last())
    }
}

/// The position of the last record whose key is `k`.
pub open spec fn last_index_with<T>(s: Seq<T>, key: spec_fn(T) -> Seq<char>, k: Seq<char>) -> int
    decreases s.len(),
{
    if s.len() == 0 {
        -1
    } else if key(s.last()) == k {
        s.len() - 1
    } else {
        last_index_with(s.drop_last(), key, k)
    }
}

/// What `id_map_of` holds: exactly the keys that occur, each bound to the
/// record at its key's last occurrence.
pub proof fn lemma_id_map_of_get<T>(s: Seq<T>, key: spec_fn(T) -> Seq<char>, k: Seq<char>)
    ensures
        id_map_of(s, key).contains_key(k) <==> exists|i: int|
            0 <= i < s.len() && key(#[trigger] s[i]) == k,
        id_map_of(s, key).contains_key(k) ==> ({
            let j = last_index_with(s, key, k);
            &&& 0 <= j < s.len()
            &&& key(s[j]) == k
            &&& id_map_of(s, key)[k] == s[j]
            &&& forall|i: int| j < i < s.len() ==> key(#[trigger] s[i]) != k
        }),
    decreases s.len(),
{
    if s.len() > 0 {
        lemma_id_map_of_get(s.drop_last(), key, k);
        assert(s.drop_last().len() == s.len() - 1);
        assert(forall|i: int| 0 <= i < s.len() - 1 ==> #[trigger] s[i] == s.drop_last()[i]);
        if key(s.last()) == k {
            assert(s[s.len() - 1] == s.last());
        } else {
            if exists|i: int| 0 <= i < s.len() && key(#[trigger] s[i]) == k {
                let i = choose|i: int| 0 <= i < s.len() && key(#[trigger] s[i]) == k;
                assert(i < s.len() - 1);
                assert(key(s.drop_last()[i]) == k);
            }
        }
    }
}

/// A single-valued mapping from identifier to record; keys are unique.
pub struct IdMap<T> {
    keys: Vec<String>,
    vals: Vec<T>,
}

impl<T> IdMap<T> {
    /// Keys are held once each, beside their values.
    pub closed spec fn wf(self) -> bool {
        &&& self.keys@.len() == self.vals@.len()
        &&& forall|i: int, j: int|
            0 <= i < j < self.keys@.len() ==> (#[trigger] self.keys@[i])@ != (
            #[trigger] self.keys@[j])@
    }

    /// The mapping this index holds.
    pub closed spec fn map_view(self) -> Map<Seq<char>, T> {
        Map::new(
            |k: Seq<char>|
                exists|i: int| 0 <= i < self.keys@.len() && (#[trigger] self.keys@[i])@ == k,
            |k: Seq<char>|
                self.vals@[choose|i: int|
                    0 <= i < self.keys@.len() && (#[trigger] self.keys@[i])@ == k],
        )
    }

    /// An empty index.
    pub fn new() -> (r: IdMap<T>)
        ensures
            r.wf(),
            r.map_view() == Map::<Seq<char>, T>::empty(),
    {
        let r = IdMap { keys: Vec::new(), vals: Vec::new() };
        proof {
            assert(r.map_view() =~= Map::<Seq<char>, T>::empty());
        }
        r
    }

    /// Bind a key to a value, overwriting any earlier binding of the key.
    pub fn insert(&mut self, k: String, v: T)
        requires
            old(self).wf(),
        ensures
            final(self).wf(),
            final(self).map_view() == old(self).map_view().insert(k@, v),
    {
        let mut i: usize = 0;
        while i < self.keys.len()
            invariant
                *self == *old(self),
                old(self).wf(),
                i <= self.keys@.len(),
                forall|j: int| 0 <= j < i ==> (#[trigger] self.keys@[j])@ != k@,
            decreases self.keys@.len() - i,
        {
            if str_eq_value(self.keys[i].as_str(), k.as_str()) {
                self.vals.set(i, v);
                proof {
                    assert((*self).wf());
                    assert forall|kk: Seq<char>|
                        (*self).map_view().contains_key(kk) == old(self).map_view().insert(
                            k@,
                            v,
                        ).contains_key(kk) by {
                        assert(self.keys@ == old(self).keys@);
                        if kk == k@ {
                            assert((self.keys@[i as int])@ == kk);
                        }
                    }
                    assert forall|kk: Seq<char>| (*self).map_view().contains_key(kk) implies
                        (*self).map_view()[kk] == old(self).map_view().insert(k@, v)[kk] by {
                        let w = choose|j: int|
                            0 <= j < self.keys@.len() && (#[trigger] self.keys@[j])@ == kk;
                        if kk == k@ {
                            assert(w == i) by {
                                if w != i {
                                    assert((self.keys@[w])@ == kk);
                                    assert((self.keys@[i as int])@ == kk);
                                }
                            }
                        } else {
                            assert(w != i) by {
                                if w == i {
                                    assert((self.keys@[i as int])@ == k@);
                                }
                            }
                            assert(old(self).map_view().contains_key(kk));
                        }
                    }
                    assert((*self).map_view() =~= old(self).map_view().insert(k@, v));
                }
                return ;
            }
            i = i + 1;
        }
        let ghost n = self.keys@.len();
        self.keys.push(k);
        self.vals.push(v);
        proof {
            assert(self.keys@.len() == n + 1);
            assert((self.keys@[n as int])@ == k@);
            assert(forall|j: int| 0 <= j < n ==> #[trigger] self.keys@[j] == old(self).keys@[j]);
            assert((*self).wf());
            assert forall|kk: Seq<char>|
                (*self).map_view().contains_key(kk) == old(self).map_view().insert(
                    k@,
                    v,
                ).contains_key(kk) by {
                if kk != k@ {
                    if (*self).map_view().contains_key(kk) {
                        let w = choose|j: int|
                            0 <= j < self.keys@.len() && (#[trigger] self.keys@[j])@ == kk;
                        assert(w < n);
                        assert((old(self).keys@[w])@ == kk);
                    }
                    if old(self).map_view().contains_key(kk) {
                        let w = choose|j: int|
                            0 <= j < old(self).keys@.len() && (#[trigger] old(self).keys@[j])@ == kk;
                        assert((self.keys@[w])@ == kk);
                    }
                }
            }
            assert forall|kk: Seq<char>| (*self).map_view().contains_key(kk) implies
                (*self).map_view()[kk] == old(self).map_view().insert(k@, v)[kk] by {
                let w = choose|j: int|
                    0 <= j < self.keys@.len() && (#[trigger] self.keys@[j])@ == kk;
                if kk == k@ {
                    assert(w == n) by {
                        if w != n {
                            assert((old(self).keys@[w])@ == kk);
                            assert(old(self).map_view().contains_key(kk));
                            let u = choose|j: int|
                                0 <= j < old(self).keys@.len() && (#[trigger] old(self).keys@[j])@ == kk;
                            assert((self.keys@[u])@ == kk);
                            assert(u != n);
                            assert(false);
                        }
                    }
                    assert((*self).map_view()[kk] == self.vals@[n as int]);
                } else {
                    assert(w != n);
                    assert((old(self).keys@[w])@ == kk);
                    assert(old(self).map_view().contains_key(kk));
                    let u = choose|j: int|
                        0 <= j < old(self).keys@.len() && (#[trigger] old(self).keys@[j])@ == kk;
                    assert(u == w) by {
                        if u != w {
                            assert((old(self).keys@[u])@ == kk);
                            assert((old(self).keys@[w])@ == kk);
                        }
                    }
                }
            }
            assert((*self).map_view() =~= old(self).map_view().insert(k@, v));
        }
    }

    /// Look a key up.
    pub fn get(&self, k: &str) -> (r: Option<&T>)
        requires
            self.wf(),
        ensures
            r is Some <==> self.map_view().contains_key(k@),
            r matches Some(v) ==> self.map_view().contains_key(k@) && *v == self.map_view()[k@],
    {
        let mut i: usize = 0;
        while i < self.keys.len()
            invariant
                self.wf(),
                i <= self.keys@.len(),
                self.keys@.len() == self.vals@.len(),
                forall|j: int| 0 <= j < i ==> (#[trigger] self.keys@[j])@ != k@,
            decreases self.keys@.len() - i,
        {
            if str_eq_value(self.keys[i].as_str(), k) {
                proof {
                    assert((self.keys@[i as int])@ == k@);
                    assert(self.map_view().contains_key(k@));
                    let w = choose|j: int|
                        0 <= j < self.keys@.len() && (#[trigger] self.keys@[j])@ == k@;
                    assert(w == i) by {
                        if w != i {
                            assert((self.keys@[w])@ == k@);
                            assert((self.keys@[i as int])@ == k@);
                        }
                    }
                }
                return Some(&self.vals[i]);
            }
            i = i + 1;
        }
        proof {
            if self.map_view().contains_key(k@) {
                let w = choose|j: int|
                    0 <= j < self.keys@.len() && (#[trigger] self.keys@[j])@ == k@;
                assert((self.keys@[w])@ != k@);
            }
        }
        None
    }
}

/// The position of the last data row whose named column holds `k`.
pub open spec fn last_row_with(
    h: Seq<Seq<char>>,
    d: Seq<Seq<Seq<char>>>,
    name: Seq<char>,
    k: Seq<char>,
) -> int
    decreases d.len(),
{
    if d.len() == 0 {
        -1
    } else if crate::fields::cell(h, d.last(), name) == Some(k) {
        d.len() - 1
    } else {
        last_row_with(h, d.drop_last(), name, k)
    }
}

/// Ties the record index to the row index: whenever every record matches
/// its row and the key read from a record is the named column of its row,
/// the mapping holds exactly the keys that occur in the rows, each bound
/// to a record matching the last row carrying that key.
pub proof fn lemma_id_map_rows<T>(
    h: Seq<Seq<char>>,
    d: Seq<Seq<Seq<char>>>,
    ss: Seq<T>,
    key: spec_fn(T) -> Seq<char>,
    name: Seq<char>,
    rel: spec_fn(Seq<Seq<char>>, Seq<Seq<char>>, T) -> bool,
    k: Seq<char>,
)
    requires
        ss.len() == d.len(),
        forall|i: int| 0 <= i < ss.len() ==> #[trigger] rel(h, d[i], ss[i]),
        forall|i: int|
            0 <= i < ss.len() ==> crate::fields::cell(h, #[trigger] d[i], name) == Some(
                key(ss[i]),
            ),
    ensures
        id_map_of(ss, key).contains_key(k) <==> exists|i: int|
            0 <= i < d.len() && crate::fields::cell(h, #[trigger] d[i], name) == Some(k),
        id_map_of(ss, key).contains_key(k) ==> ({
            let j = last_row_with(h, d, name, k);
            &&& 0 <= j < d.len()
            &&& crate::fields::cell(h, d[j], name) == Some(k)
            &&& rel(h, d[j], id_map_of(ss, key)[k])
            &&& key(id_map_of(ss, key)[k]) == k
        }),
    decreases d.len(),
{
    lemma_id_map_of_get(ss, key, k);
    if id_map_of(ss, key).contains_key(k) {
        let j = last_index_with(ss, key, k);
        assert(key(ss[j]) == k);
        assert(crate::fields::cell(h, d[j], name) == Some(k));
        assert(rel(h, d[j], ss[j]));
        lemma_last_row_agrees(h, d, ss, key, name, k, j);
    } else {
        if exists|i: int|
            0 <= i < d.len() && crate::fields::cell(h, #[trigger] d[i], name) == Some(k) {
            let i = choose|i: int|
                0 <= i < d.len() && crate::fields::cell(h, #[trigger] d[i], name) == Some(k);
            assert(key(ss[i]) == k);
        }
    }
}

/// The last record index with key `k` is the last row index whose named
/// column holds `k`.
proof fn lemma_last_row_agrees<T>(
    h: Seq<Seq<char>>,
    d: Seq<Seq<Seq<char>>>,
    ss: Seq<T>,
    key: spec_fn(T) -> Seq<char>,
    name: Seq<char>,
    k: Seq<char>,
    j: int,
)
    requires
        ss.len() == d.len(),
        forall|i: int|
            0 <= i < ss.len() ==> crate::fields::cell(h, #[trigger] d[i], name) == Some(
                key(ss[i]),
            ),
        j == last_index_with(ss, key, k),
        0 <= j < ss.len(),
        key(ss[j]) == k,
        forall|i: int| j < i < ss.len() ==> key(#[trigger] ss[i]) != k,
    ensures
        last_row_with(h, d, name, k) == j,
    decreases d.len(),
{
    if d.len() > 0 {
        if crate::fields::cell(h, d.last(), name) == Some(k) {
            assert(key(ss[d.len() - 1]) == k);
            assert(j == d.len() - 1);
        } else {
            assert(key(ss[d.len() - 1]) != k);
            assert(j < d.len() - 1);
            assert(forall|i: int|
                0 <= i < ss.len() - 1 ==> #[trigger] ss.drop_last()[i] == ss[i]);
            assert(forall|i: int| 0 <= i < d.len() - 1 ==> #[trigger] d.drop_last()[i] == d[i]);
            assert(last_index_with(ss.drop_last(), key, k) == j);
            lemma_last_row_agrees(h, d.drop_last(), ss.drop_last(), key, name, k, j);
        }
    }
}

} // verus!
