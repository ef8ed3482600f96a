//! Deduplicating dictionary builder: maps a string value to a dense,
//! insertion-ordered integer id. Equal inputs always yield equal ids, and
//! `build` materializes the id-indexed array of values.

use vstd::prelude::*;

verus! {

/// The values held so far, in id order: id `i` is the value at index `i`.
pub open spec fn dict_distinct(s: Seq<Seq<char>>) -> bool {
    forall|i: int, j: int| 0 <= i < j < s.len() ==> s[i] != s[j]
}

/// What one insertion does to the value sequence: nothing when the value is
/// already present, else it is appended and assigned the next id.
pub open spec fn dict_insert(s: Seq<Seq<char>>, v: Seq<char>) -> Seq<Seq<char>> {
    if s.contains(v) {
        s
    } else {
        s.push(v)
    }
}

/// `id` is the id assigned to `v` in value sequence `s`.
pub open spec fn dict_id_of(s: Seq<Seq<char>>, v: Seq<char>, id: int) -> bool {
    0 <= id < s.len() && s[id] == v
}

/// Deduplicating map from a string to a dense integer id, assigned
/// sequentially from 0 in insertion order, no reuse.
pub struct HashSetIdBuilder {
    values: Vec<String>,
}

impl View for HashSetIdBuilder {
    type V = Seq<Seq<char>>;

    closed spec fn view(&self) -> Seq<Seq<char>> {
        Seq::new(self.values@.len(), |i: int| self.values@[i]@)
    }
}

impl Default for HashSetIdBuilder {
    fn default() -> (d: Self)
        ensures
            d@ == Seq::<Seq<char>>::empty(),
            d.wf(),
    {
        HashSetIdBuilder::new()
    }
}

impl HashSetIdBuilder {
    pub open spec fn wf(&self) -> bool {
        dict_distinct(self@)
    }

    pub fn new() -> (d: Self)
        ensures
            d@ == Seq::<Seq<char>>::empty(),
            d.wf(),
    {
        let d = HashSetIdBuilder { values: Vec::new() };
        proof {
            assert(d@ =~= Seq::<Seq<char>>::empty());
        }
        d
    }

    /// Returns the id previously assigned to `item` if it was inserted
    /// before (by equality); otherwise assigns the next sequential id.
    pub fn insert(&mut self, item: String) -> (id: usize)
        requires
            old(self).wf(),
        ensures
            final(self).wf(),
            final(self)@ == dict_insert(old(self)@, item@),
            dict_id_of(final(self)@, item@, id as int),
            forall|j: int| 0 <= j < id ==> final(self)@[j] != item@,
    {
        let n = self.values.len();
        let mut i: usize = 0;
        while i < n
            invariant
                self@ == old(self)@,
                dict_distinct(self@),
                n == self.values@.len(),
                i <= n,
                forall|j: int| 0 <= j < i ==> self@[j] != item@,
            decreases n - i,
        {
            if self.values[i].eq(&item) {
                proof {
                    assert(self@.contains(item@)) by {
                        assert(self@[i as int] == item@);
                    }
                }
                return i;
            }
            i += 1;
        }
        proof {
            assert(!self@.contains(item@));
        }
        self.values.push(item);
        proof {
            assert(self@ =~= dict_insert(old(self)@, item@));
        }
        n
    }

    /// Consumes the builder and returns the array where index `i` holds the
    /// value that was assigned id `i`.
    pub fn build(self) -> (r: Vec<String>)
        ensures
            r@.len() == self@.len(),
            forall|i: int| 0 <= i < r@.len() ==> r@[i]@ == self@[i],
    {
        self.values
    }

    pub fn len(&self) -> (n: usize)
        ensures
            n == self@.len(),
    {
        self.values.len()
    }
}

/// Repeating an insertion changes nothing: after the first insertion the
/// value is present, so a second one leaves the values as they were (and,
/// by `lemma_dict_id_unique`, returns the id it returned before).
pub proof fn lemma_dict_insert_idempotent(s: Seq<Seq<char>>, v: Seq<char>)
    ensures
        dict_insert(dict_insert(s, v), v) == dict_insert(s, v),
{
    assert(dict_insert(s, v).contains(v)) by {
        if !s.contains(v) {
            assert(dict_insert(s, v)[s.len() as int] == v);
        }
    }
}

/// An id names one value: in a distinct value sequence a value has at most
/// one id, so repeating an insertion yields the id it yielded before.
pub proof fn lemma_dict_id_unique(s: Seq<Seq<char>>, v: Seq<char>, id1: int, id2: int)
    requires
        dict_distinct(s),
        dict_id_of(s, v, id1),
        dict_id_of(s, v, id2),
    ensures
        id1 == id2,
{
}

/// Distinct values get distinct ids.
pub proof fn lemma_dict_ids_injective(s: Seq<Seq<char>>, v1: Seq<char>, v2: Seq<char>, id1: int, id2: int)
    requires
        v1 != v2,
        dict_id_of(s, v1, id1),
        dict_id_of(s, v2, id2),
    ensures
        id1 != id2,
{
}

/// Ids are stable: an insertion never moves a value already assigned an id,
/// so every id handed out earlier keeps naming the same value.
pub proof fn lemma_dict_insert_preserves_ids(s: Seq<Seq<char>>, u: Seq<char>, v: Seq<char>, id: int)
    requires
        dict_id_of(s, v, id),
    ensures
        dict_id_of(dict_insert(s, u), v, id),
{
}

/// An insertion only ever appends: the values before it are a prefix of the
/// values after it.
pub proof fn lemma_dict_insert_prefix(s: Seq<Seq<char>>, v: Seq<char>)
    ensures
        s.is_prefix_of(dict_insert(s, v)),
{
    assert(s =~= dict_insert(s, v).subrange(0, s.len() as int));
}

/// One insertion grows the value count exactly when the value is new, so the
/// built array's length equals the count of distinct inserted values.
pub proof fn lemma_dict_insert_len(s: Seq<Seq<char>>, v: Seq<char>)
    ensures
        dict_insert(s, v).len() == s.len() + (if s.contains(v) { 0int } else { 1int }),
{
}

/// Resolution: the built array holds, at the id `insert` returned for a
/// value, exactly that value.
pub proof fn lemma_dict_build_resolves(s: Seq<Seq<char>>, v: Seq<char>, id: int)
    requires
        dict_id_of(s, v, id),
    ensures
        s[id] == v,
{
}

} // verus!
