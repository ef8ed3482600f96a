//! Store assembly: accumulates transformed records into an identifier-keyed
//! map with last-write-wins overwrite, then finalizes the dictionaries into
//! dense id-indexed arrays and compacts the arenas into an immutable store.

use std::collections::HashMap;
use vstd::prelude::*;
use crate::arena::{
    lemma_append_prefix, lemma_prefix_trans, lemma_str_at_prefix, range_in, str_at, str_ref_in,
    Arena, SlabRange, StrRef, StringArena,
};
use crate::data::{item_wf, lemma_item_wf_grow, torrent_wf, Item, Tag, Torrent};
use crate::dict::{dict_distinct, HashSetIdBuilder};
use crate::disowned::DisownedTable;
use crate::parse::{Root1, SchemaError};
use crate::transform::{item_matches, record_ok, transform};

verus! {

broadcast use vstd::std_specs::hash::group_hash_axioms;

/// Every record in the map sits under its own identifier and addresses only
/// existing pool entries and dictionary ids.
pub open spec fn entries_wf(
    items: Map<u64, Item>,
    text: Seq<char>,
    tags_len: int,
    torrents_len: int,
    users_len: int,
) -> bool {
    forall|g: u64| #[trigger]
        items.contains_key(g) ==> items[g].gid == g && item_wf(
            items[g],
            text,
            tags_len,
            torrents_len,
            users_len,
        )
}

/// Every stored tag entry names an id the tag dictionary has assigned.
pub open spec fn tag_pool_wf(pool: Seq<Tag>, dict_len: int) -> bool {
    forall|i: int| 0 <= i < pool.len() ==> (#[trigger] pool[i]).id < dict_len
}

/// Every stored transfer descriptor addresses only existing text.
pub open spec fn torrent_pool_wf(pool: Seq<Torrent>, text: Seq<char>) -> bool {
    forall|i: int| 0 <= i < pool.len() ==> torrent_wf(#[trigger] pool[i], text)
}

/// The mutable ingestion context: both dictionary builders, the text arena,
/// both slab arenas, the identifier-keyed record map, and the withdrawn-
/// contribution reassignment table, all owned by one pipeline.
pub struct DbBuilder {
    users: HashSetIdBuilder,
    tags: HashSetIdBuilder,
    arena: StringArena,
    t_arena: Arena<Tag>,
    to_arena: Arena<Torrent>,
    items: HashMap<u64, Item>,
    disowned: DisownedTable,
}

impl DbBuilder {
    pub closed spec fn users_dict(&self) -> Seq<Seq<char>> {
        self.users@
    }

    pub closed spec fn tags_dict(&self) -> Seq<Seq<char>> {
        self.tags@
    }

    pub closed spec fn text(&self) -> Seq<char> {
        self.arena@
    }

    pub closed spec fn tag_pool(&self) -> Seq<Tag> {
        self.t_arena@
    }

    pub closed spec fn torrent_pool(&self) -> Seq<Torrent> {
        self.to_arena@
    }

    pub closed spec fn records(&self) -> Map<u64, Item> {
        self.items@
    }

    pub closed spec fn disowned_map(&self) -> Map<u64, Seq<char>> {
        self.disowned@
    }

    pub open spec fn wf(&self) -> bool {
        &&& dict_distinct(self.users_dict())
        &&& dict_distinct(self.tags_dict())
        &&& entries_wf(
            self.records(),
            self.text(),
            self.tag_pool().len() as int,
            self.torrent_pool().len() as int,
            self.users_dict().len() as int,
        )
        &&& tag_pool_wf(self.tag_pool(), self.tags_dict().len() as int)
        &&& torrent_pool_wf(self.torrent_pool(), self.text())
    }

    /// A fresh context around the given reassignment table.
    pub fn new(disowned: DisownedTable) -> (b: DbBuilder)
        ensures
            b.wf(),
            b.records() == Map::<u64, Item>::empty(),
            b.users_dict() == Seq::<Seq<char>>::empty(),
            b.tags_dict() == Seq::<Seq<char>>::empty(),
            b.disowned_map() == disowned@,
    {
        let b = DbBuilder {
            users: HashSetIdBuilder::new(),
            tags: HashSetIdBuilder::new(),
            arena: StringArena::new(),
            t_arena: Arena::new(),
            to_arena: Arena::new(),
            items: HashMap::new(),
            disowned,
        };
        proof {
            assert(b.records() =~= Map::<u64, Item>::empty());
        }
        b
    }

    /// Ingests one raw record: transforms it and inserts the result under
    /// its identifier, a later record with the same identifier overwriting
    /// the earlier one wholesale. Fails on exactly the schema-invalid
    /// records, leaving the record map unchanged.
    pub fn ingest(&mut self, raw: Root1) -> (r: Result<(), SchemaError>)
        requires
            old(self).wf(),
        ensures
            final(self).wf(),
            final(self).disowned_map() == old(self).disowned_map(),
            old(self).users_dict().is_prefix_of(final(self).users_dict()),
            old(self).tags_dict().is_prefix_of(final(self).tags_dict()),
            old(self).text().is_prefix_of(final(self).text()),
            old(self).tag_pool().is_prefix_of(final(self).tag_pool()),
            old(self).torrent_pool().is_prefix_of(final(self).torrent_pool()),
            r is Ok <==> record_ok(raw),
            r is Ok ==> exists|item: Item|
                {
                    &&& #[trigger] item_matches(
                        item,
                        raw,
                        final(self).text(),
                        final(self).tag_pool(),
                        final(self).torrent_pool(),
                        final(self).users_dict(),
                        final(self).tags_dict(),
                        final(self).disowned_map(),
                    )
                    &&& final(self).records() == old(self).records().insert(raw.gid, item)
                },
            r is Err ==> final(self).records() == old(self).records(),
    {
        broadcast use crate::arena::lemma_prefix_refl;

        let ghost raw0 = raw;
        match transform(
            raw,
            &mut self.users,
            &mut self.tags,
            &self.disowned,
            &mut self.arena,
            &mut self.t_arena,
            &mut self.to_arena,
        ) {
            Ok(item) => {
                proof {
                    assert(item_wf(
                        item,
                        self.text(),
                        self.tag_pool().len() as int,
                        self.torrent_pool().len() as int,
                        self.users_dict().len() as int,
                    ));
                }
                let ghost before = self.items@;
                self.items.insert(item.gid, item);
                proof {
                    assert(self.records() == before.insert(raw0.gid, item));
                    assert forall|g: u64| #[trigger] self.records().contains_key(g) implies self
                        .records()[g].gid == g && item_wf(
                        self.records()[g],
                        self.text(),
                        self.tag_pool().len() as int,
                        self.torrent_pool().len() as int,
                        self.users_dict().len() as int,
                    ) by {
                        if g != raw0.gid {
                            assert(before.contains_key(g));
                            assert(old(self).records().contains_key(g));
                            lemma_item_wf_grow(
                                before[g],
                                old(self).text(),
                                self.text(),
                                old(self).tag_pool().len() as int,
                                self.tag_pool().len() as int,
                                old(self).torrent_pool().len() as int,
                                self.torrent_pool().len() as int,
                                old(self).users_dict().len() as int,
                                self.users_dict().len() as int,
                            );
                        }
                    }
                    assert forall|i: int| 0 <= i < self.tag_pool().len() implies (
                    #[trigger] self.tag_pool()[i]).id < self.tags_dict().len() by {
                        if i < old(self).tag_pool().len() {
                            assert(old(self).tag_pool()[i] == self.tag_pool()[i]);
                        } else {
                            assert(item.tags.start <= i < item.tags.end);
                        }
                    }
                    assert forall|i: int| 0 <= i < self.torrent_pool().len() implies torrent_wf(
                        #[trigger] self.torrent_pool()[i],
                        self.text(),
                    ) by {
                        if i < old(self).torrent_pool().len() {
                            assert(old(self).torrent_pool()[i] == self.torrent_pool()[i]);
                            assert(torrent_wf(self.torrent_pool()[i], old(self).text()));
                        } else {
                            assert(item.torrents.start <= i < item.torrents.end);
                        }
                    }
                }
                Ok(())
            },
            Err(e) => Err(e),
        }
    }

    /// Ingests one source file's worth of records, in order. Stops at the
    /// first schema-invalid record, whose failure aborts the whole run;
    /// succeeds exactly when every record in the batch is valid, and then
    /// every record of the batch sits in the map under its identifier.
    pub fn ingest_batch(&mut self, records: Vec<Root1>) -> (r: Result<(), SchemaError>)
        requires
            old(self).wf(),
        ensures
            final(self).wf(),
            final(self).disowned_map() == old(self).disowned_map(),
            r is Ok <==> (forall|k: int| 0 <= k < records@.len() ==> record_ok(#[trigger] records@[k])),
            r is Ok ==> forall|k: int|
                0 <= k < records@.len() ==> final(self).records().contains_key(
                    (#[trigger] records@[k]).gid,
                ),
    {
        let ghost all = records@;
        let n = records.len();
        let mut rest = records;
        let mut i: usize = 0;
        proof {
            assert(rest@ =~= all.skip(0));
        }
        while i < n
            invariant
                all == records@,
                i <= n,
                n == all.len(),
                rest@ =~= all.skip(i as int),
                self.wf(),
                self.disowned_map() == old(self).disowned_map(),
                forall|j: int| 0 <= j < i ==> record_ok(#[trigger] all[j]),
                forall|j: int|
                    0 <= j < i ==> self.records().contains_key((#[trigger] all[j]).gid),
            decreases n - i,
        {
            let rec = rest.remove(0);
            proof {
                assert(rec == all.skip(i as int)[0]);
                assert(rec == all[i as int]);
                assert(rest@ =~= all.skip(i + 1));
            }
            let ghost before = self.records();
            match self.ingest(rec) {
                Ok(_) => (),
                Err(e) => {
                    proof {
                        assert(!record_ok(records@[i as int]));
                    }
                    return Err(e);
                },
            }
            proof {
                assert forall|j: int| 0 <= j < i + 1 implies self.records().contains_key(
                    (#[trigger] all[j]).gid,
                ) by {
                    if j < i {
                        assert(before.contains_key(all[j].gid));
                    }
                }
            }
            i += 1;
        }
        proof {
            assert(all.skip(n as int).len() == 0);
        }
        Ok(())
    }

    /// How many records have been ingested so far (distinct identifiers).
    pub fn record_count(&self) -> (n: usize)
        ensures
            n == self.records().dom().len(),
    {
        self.items.len()
    }
}

/// The finished immutable store: the text arena, the two slab pools, the
/// two dense id-indexed dictionaries, and the identifier-keyed record map.
pub struct Db {
    users: Vec<StrRef>,
    tags: Vec<StrRef>,
    arena: StringArena,
    t_arena: Arena<Tag>,
    to_arena: Arena<Torrent>,
    items: HashMap<u64, Item>,
}

impl Db {
    pub closed spec fn user_refs(&self) -> Seq<StrRef> {
        self.users@
    }

    pub closed spec fn tag_refs(&self) -> Seq<StrRef> {
        self.tags@
    }

    pub closed spec fn text(&self) -> Seq<char> {
        self.arena@
    }

    pub closed spec fn tag_pool(&self) -> Seq<Tag> {
        self.t_arena@
    }

    pub closed spec fn torrent_pool(&self) -> Seq<Torrent> {
        self.to_arena@
    }

    pub closed spec fn records(&self) -> Map<u64, Item> {
        self.items@
    }

    pub open spec fn wf(&self) -> bool {
        &&& entries_wf(
            self.records(),
            self.text(),
            self.tag_pool().len() as int,
            self.torrent_pool().len() as int,
            self.user_refs().len() as int,
        )
        &&& tag_pool_wf(self.tag_pool(), self.tag_refs().len() as int)
        &&& torrent_pool_wf(self.torrent_pool(), self.text())
        &&& forall|i: int|
            0 <= i < self.user_refs().len() ==> str_ref_in(self.text(), #[trigger] self.user_refs()[i])
        &&& forall|i: int|
            0 <= i < self.tag_refs().len() ==> str_ref_in(self.text(), #[trigger] self.tag_refs()[i])
    }

    pub fn record_count(&self) -> (n: usize)
        ensures
            n == self.records().dom().len(),
    {
        self.items.len()
    }

    pub fn user_count(&self) -> (n: usize)
        ensures
            n == self.user_refs().len(),
    {
        self.users.len()
    }

    pub fn tag_count(&self) -> (n: usize)
        ensures
            n == self.tag_refs().len(),
    {
        self.tags.len()
    }

    pub fn text_len(&self) -> (n: usize)
        ensures
            n == self.text().len(),
    {
        self.arena.len()
    }

    pub fn tag_entry_count(&self) -> (n: usize)
        ensures
            n == self.tag_pool().len(),
    {
        self.t_arena.len()
    }

    pub fn torrent_entry_count(&self) -> (n: usize)
        ensures
            n == self.torrent_pool().len(),
    {
        self.to_arena.len()
    }

    /// The record stored under an identifier, if any.
    pub fn get_item(&self, gid: u64) -> (r: Option<&Item>)
        ensures
            match r {
                Option::Some(item) => self.records().contains_key(gid) && *item
                    == self.records()[gid],
                Option::None => !self.records().contains_key(gid),
            },
    {
        self.items.get(&gid)
    }

    /// Reads the text a handle covers; handles come from this store's own
    /// records and dictionaries.
    pub fn resolve(&self, r: StrRef) -> (s: &str)
        requires
            str_ref_in(self.text(), r),
        ensures
            s@ == str_at(self.text(), r),
    {
        self.arena.get(r)
    }

    /// The display text the user dictionary assigned to an id.
    pub fn user_name(&self, id: usize) -> (s: &str)
        requires
            self.wf(),
            id < self.user_refs().len(),
        ensures
            s@ == str_at(self.text(), self.user_refs()[id as int]),
    {
        self.arena.get(self.users[id])
    }

    /// The display text the tag dictionary assigned to an id.
    pub fn tag_value(&self, id: usize) -> (s: &str)
        requires
            self.wf(),
            id < self.tag_refs().len(),
        ensures
            s@ == str_at(self.text(), self.tag_refs()[id as int]),
    {
        self.arena.get(self.tags[id])
    }

    /// The tag entries a record's range covers.
    pub fn tag_entries(&self, r: SlabRange) -> (s: &[Tag])
        requires
            range_in(self.tag_pool().len() as int, r),
        ensures
            s@ == self.tag_pool().subrange(r.start as int, r.end as int),
    {
        self.t_arena.get_range(r)
    }

    /// The transfer-descriptor entries a record's range covers.
    pub fn torrent_entries(&self, r: SlabRange) -> (s: &[Torrent])
        requires
            range_in(self.torrent_pool().len() as int, r),
        ensures
            s@ == self.torrent_pool().subrange(r.start as int, r.end as int),
    {
        self.to_arena.get_range(r)
    }
}

impl DbBuilder {
    /// Finalizes the store: materializes both dictionaries into dense
    /// id-indexed handle arrays (index = id) and compacts all arenas. The
    /// result is immutable; every id either dictionary ever returned
    /// resolves to the value it was assigned for.
    pub fn finish(self) -> (db: Db)
        requires
            self.wf(),
        ensures
            db.wf(),
            db.records() == self.records(),
            db.tag_pool() == self.tag_pool(),
            db.torrent_pool() == self.torrent_pool(),
            self.text().is_prefix_of(db.text()),
            db.user_refs().len() == self.users_dict().len(),
            db.tag_refs().len() == self.tags_dict().len(),
            forall|i: int|
                0 <= i < self.users_dict().len() ==> str_at(
                    db.text(),
                    #[trigger] db.user_refs()[i],
                ) == self.users_dict()[i],
            forall|i: int|
                0 <= i < self.tags_dict().len() ==> str_at(
                    db.text(),
                    #[trigger] db.tag_refs()[i],
                ) == self.tags_dict()[i],
    {
        broadcast use crate::arena::lemma_prefix_refl;

        let DbBuilder { users, tags, mut arena, mut t_arena, mut to_arena, items, disowned: _ } =
            self;
        let ghost text0 = arena@;
        let user_values = users.build();
        let mut user_refs: Vec<StrRef> = Vec::new();
        let mut i: usize = 0;
        while i < user_values.len()
            invariant
                i <= user_values@.len(),
                user_refs@.len() == i,
                text0.is_prefix_of(arena@),
                forall|j: int|
                    0 <= j < i ==> str_ref_in(arena@, #[trigger] user_refs@[j]) && str_at(
                        arena@,
                        user_refs@[j],
                    ) == user_values@[j]@,
            decreases user_values@.len() - i,
        {
            let ghost a_pre = arena@;
            let r = arena.add(user_values[i].as_str());
            proof {
                lemma_append_prefix(a_pre, user_values@[i as int]@);
                lemma_prefix_trans(text0, a_pre, arena@);
                assert forall|j: int| 0 <= j < i implies str_ref_in(
                    arena@,
                    #[trigger] user_refs@[j],
                ) && str_at(arena@, user_refs@[j]) == user_values@[j]@ by {
                    lemma_str_at_prefix(a_pre, arena@, user_refs@[j]);
                }
            }
            user_refs.push(r);
            i += 1;
        }
        let ghost text1 = arena@;
        let tag_values = tags.build();
        let mut tag_refs: Vec<StrRef> = Vec::new();
        let mut i2: usize = 0;
        while i2 < tag_values.len()
            invariant
                i2 <= tag_values@.len(),
                tag_refs@.len() == i2,
                text1.is_prefix_of(arena@),
                forall|j: int|
                    0 <= j < i2 ==> str_ref_in(arena@, #[trigger] tag_refs@[j]) && str_at(
                        arena@,
                        tag_refs@[j],
                    ) == tag_values@[j]@,
            decreases tag_values@.len() - i2,
        {
            let ghost a_pre = arena@;
            let r = arena.add(tag_values[i2].as_str());
            proof {
                lemma_append_prefix(a_pre, tag_values@[i2 as int]@);
                lemma_prefix_trans(text1, a_pre, arena@);
                assert forall|j: int| 0 <= j < i2 implies str_ref_in(
                    arena@,
                    #[trigger] tag_refs@[j],
                ) && str_at(arena@, tag_refs@[j]) == tag_values@[j]@ by {
                    lemma_str_at_prefix(a_pre, arena@, tag_refs@[j]);
                }
            }
            tag_refs.push(r);
            i2 += 1;
        }
        arena.finalize();
        to_arena.finalize();
        t_arena.finalize();
        proof {
            lemma_prefix_trans(text0, text1, arena@);
            assert forall|j: int| 0 <= j < user_refs@.len() implies str_ref_in(
                arena@,
                #[trigger] user_refs@[j],
            ) && str_at(arena@, user_refs@[j]) == user_values@[j]@ by {
                lemma_str_at_prefix(text1, arena@, user_refs@[j]);
            }
        }
        let db = Db {
            users: user_refs,
            tags: tag_refs,
            arena,
            t_arena,
            to_arena,
            items,
        };
        proof {
            assert forall|g: u64| #[trigger] db.records().contains_key(g) implies db.records()[g].gid
                == g && item_wf(
                db.records()[g],
                db.text(),
                db.tag_pool().len() as int,
                db.torrent_pool().len() as int,
                db.user_refs().len() as int,
            ) by {
                assert(self.records().contains_key(g));
                lemma_item_wf_grow(
                    self.records()[g],
                    self.text(),
                    db.text(),
                    self.tag_pool().len() as int,
                    db.tag_pool().len() as int,
                    self.torrent_pool().len() as int,
                    db.torrent_pool().len() as int,
                    self.users_dict().len() as int,
                    db.user_refs().len() as int,
                );
            }
            assert forall|i3: int| 0 <= i3 < db.torrent_pool().len() implies torrent_wf(
                #[trigger] db.torrent_pool()[i3],
                db.text(),
            ) by {
                assert(torrent_wf(self.torrent_pool()[i3], self.text()));
            }
        }
        db
    }
}

} // verus!
