//! Append-only arenas: a text pool addressed by (start, len) handles and a
//! generic fixed-size-record pool addressed by half-open index ranges.
//! Nothing is ever removed or moved, so every handle issued stays valid for
//! the arena's lifetime.

use vstd::prelude::*;
use vstd::slice::slice_subrange;
use vstd::string::StrSliceExecFns;
use vstd::string::StringExecFns;

verus! {

/// Append-only pool of text. `add` appends and hands out a handle covering
/// exactly the appended characters; `get` reads a handle back.
pub struct StringArena {
    data: String,
}

/// Handle into a `StringArena`: a half-open run of character positions.
/// Meaningful only relative to the arena that issued it.
#[derive(Clone, Copy, PartialEq, Eq, Structural, Debug)]
pub struct StrRef {
    pub start: usize,
    pub len: usize,
}

impl View for StringArena {
    type V = Seq<char>;

    closed spec fn view(&self) -> Seq<char> {
        self.data@
    }
}

/// The text a handle denotes within arena contents `data`.
pub open spec fn str_at(data: Seq<char>, r: StrRef) -> Seq<char> {
    data.subrange(r.start as int, r.start + r.len)
}

/// The handle lies within contents of length `data.len()`.
pub open spec fn str_ref_in(data: Seq<char>, r: StrRef) -> bool {
    r.start + r.len <= data.len()
}

/// Relies on String::shrink_to_fit: only spare capacity is dropped, the
/// contents are unchanged.
#[verifier::external_body]
fn shrink_string(s: &mut String)
    ensures
        final(s)@ == old(s)@,
{
    s.shrink_to_fit();
}

/// Relies on Vec::shrink_to_fit: only spare capacity is dropped, the
/// contents are unchanged.
#[verifier::external_body]
fn shrink_vec<T>(v: &mut Vec<T>)
    ensures
        final(v)@ == old(v)@,
{
    v.shrink_to_fit();
}

impl StringArena {
    pub fn new() -> (a: Self)
        ensures
            a@ == Seq::<char>::empty(),
    {
        StringArena { data: String::new() }
    }

    /// Appends `s` and returns a handle covering exactly the appended text.
    /// Prior contents are untouched, so handles issued earlier stay valid.
    pub fn add(&mut self, s: &str) -> (r: StrRef)
        ensures
            final(self)@ == old(self)@ + s@,
            r.start == old(self)@.len(),
            r.len == s@.len(),
            str_ref_in(final(self)@, r),
            str_at(final(self)@, r) == s@,
    {
        let start = self.data.unicode_len();
        let len = s.unicode_len();
        self.data.append(s);
        let r = StrRef { start, len };
        proof {
            assert(str_at(self@, r) =~= s@);
        }
        r
    }

    /// Reads the text a handle covers. Presenting a handle from a different
    /// arena is a caller contract violation, excluded by `requires`.
    pub fn get(&self, r: StrRef) -> (s: &str)
        requires
            str_ref_in(self@, r),
        ensures
            s@ == str_at(self@, r),
    {
        let _n = self.data.unicode_len();
        self.data.as_str().substring_char(r.start, r.start + r.len)
    }

    pub fn len(&self) -> (n: usize)
        ensures
            n == self@.len(),
    {
        self.data.unicode_len()
    }

    /// Shrinks the backing allocation to the contents; a pure memory-footprint
    /// optimization with no observable semantic effect.
    pub fn finalize(&mut self)
        ensures
            final(self)@ == old(self)@,
    {
        shrink_string(&mut self.data);
    }
}

/// Half-open index range into a `Arena<T>`, covering one appended batch.
/// Meaningful only relative to the arena that issued it.
#[derive(Clone, Copy, PartialEq, Eq, Structural, Debug)]
pub struct SlabRange {
    pub start: usize,
    pub end: usize,
}

/// The range lies within contents of length `data_len`.
pub open spec fn range_in(data_len: int, r: SlabRange) -> bool {
    r.start <= r.end <= data_len
}

/// Append-only pool of fixed-size records. `add_slice` appends a whole batch
/// atomically and returns the index range covering it.
pub struct Arena<T> {
    data: Vec<T>,
}

impl<T> View for Arena<T> {
    type V = Seq<T>;

    closed spec fn view(&self) -> Seq<T> {
        self.data@
    }
}

impl<T> Arena<T> {
    pub fn new() -> (a: Self)
        ensures
            a@ == Seq::<T>::empty(),
    {
        Arena { data: Vec::new() }
    }

    pub fn with_capacity(cap: usize) -> (a: Self)
        ensures
            a@ == Seq::<T>::empty(),
    {
        Arena { data: Vec::with_capacity(cap) }
    }

    /// Appends a whole batch, never reordered or split, and returns the range
    /// covering exactly the batch.
    pub fn add_slice(&mut self, items: Vec<T>) -> (r: SlabRange)
        ensures
            final(self)@ == old(self)@ + items@,
            r.start == old(self)@.len(),
            r.end == final(self)@.len(),
            range_in(final(self)@.len() as int, r),
            final(self)@.subrange(r.start as int, r.end as int) == items@,
    {
        let start = self.data.len();
        let mut batch = items;
        self.data.append(&mut batch);
        let end = self.data.len();
        let r = SlabRange { start, end };
        proof {
            assert(self@.subrange(r.start as int, r.end as int) =~= self@.subrange(
                old(self)@.len() as int,
                self@.len() as int,
            ));
        }
        r
    }

    /// Read view of one appended batch. An out-of-bounds range is a caller
    /// contract violation, excluded by `requires`.
    pub fn get_range(&self, r: SlabRange) -> (s: &[T])
        requires
            range_in(self@.len() as int, r),
        ensures
            s@ == self@.subrange(r.start as int, r.end as int),
    {
        slice_subrange(self.data.as_slice(), r.start, r.end)
    }

    pub fn len(&self) -> (n: usize)
        ensures
            n == self@.len(),
    {
        self.data.len()
    }

    /// Shrinks the backing allocation to the contents; a pure memory-footprint
    /// optimization with no observable semantic effect.
    pub fn finalize(&mut self)
        ensures
            final(self)@ == old(self)@,
    {
        shrink_vec(&mut self.data);
    }
}

/// Text round trip: a handle placed at the end of contents `data` with the
/// length of the appended text `s` reads back exactly `s`. This is `get` after
/// `add`, stated over the arena model.
pub proof fn lemma_string_arena_round_trip(data: Seq<char>, s: Seq<char>, r: StrRef)
    requires
        r.start == data.len(),
        r.len == s.len(),
    ensures
        str_ref_in(data + s, r),
        str_at(data + s, r) == s,
{
    assert(str_at(data + s, r) =~= s);
}

/// Batch round trip: the range covering a batch appended after contents
/// `data` reads back exactly the batch, elementwise. This is `get_range`
/// after `add_slice`, stated over the arena model.
pub proof fn lemma_slab_round_trip<T>(data: Seq<T>, batch: Seq<T>, r: SlabRange)
    requires
        r.start == data.len(),
        r.end == data.len() + batch.len(),
    ensures
        range_in((data + batch).len() as int, r),
        (data + batch).subrange(r.start as int, r.end as int) == batch,
{
    assert((data + batch).subrange(r.start as int, r.end as int) =~= batch);
}

/// Every contents sequence is a prefix of itself.
pub broadcast proof fn lemma_prefix_refl<T>(a: Seq<T>)
    ensures
        #[trigger] a.is_prefix_of(a),
{
    assert(a =~= a.subrange(0, a.len() as int));
}

/// Appending extends the contents: what was there before is a prefix of what
/// is there after.
pub proof fn lemma_append_prefix<T>(a: Seq<T>, b: Seq<T>)
    ensures
        a.is_prefix_of(a + b),
{
    assert(a =~= (a + b).subrange(0, a.len() as int));
}

pub proof fn lemma_prefix_trans<T>(a: Seq<T>, b: Seq<T>, c: Seq<T>)
    requires
        a.is_prefix_of(b),
        b.is_prefix_of(c),
    ensures
        a.is_prefix_of(c),
{
    assert forall|i: int| 0 <= i < a.len() implies a[i] == c[i] by {
        assert(a[i] == b.subrange(0, a.len() as int)[i]);
        assert(b[i] == c.subrange(0, b.len() as int)[i]);
    }
    assert(a =~= c.subrange(0, a.len() as int));
}

/// Appending never changes what an existing handle reads back: a handle that
/// lies within contents `a` reads the same text from any extension of `a`.
pub proof fn lemma_str_at_prefix(a: Seq<char>, b: Seq<char>, r: StrRef)
    requires
        str_ref_in(a, r),
        a.is_prefix_of(b),
    ensures
        str_ref_in(b, r),
        str_at(b, r) == str_at(a, r),
{
    assert(str_at(b, r) =~= str_at(a, r));
}

/// Appending never changes what an existing range reads back.
pub proof fn lemma_range_at_prefix<T>(a: Seq<T>, b: Seq<T>, r: SlabRange)
    requires
        range_in(a.len() as int, r),
        a.is_prefix_of(b),
    ensures
        range_in(b.len() as int, r),
        b.subrange(r.start as int, r.end as int) == a.subrange(r.start as int, r.end as int),
{
    assert(b.subrange(r.start as int, r.end as int) =~= a.subrange(r.start as int, r.end as int));
}

/// Ranges from two successive `add_slice` calls never overlap: the first ends
/// where the second begins.
pub proof fn lemma_slab_ranges_disjoint<T>(
    data: Seq<T>,
    batch1: Seq<T>,
    batch2: Seq<T>,
    r1: SlabRange,
    r2: SlabRange,
)
    requires
        r1.start == data.len(),
        r1.end == data.len() + batch1.len(),
        r2.start == (data + batch1).len(),
        r2.end == (data + batch1).len() + batch2.len(),
    ensures
        r1.end <= r2.start,
{
}

} // verus!
