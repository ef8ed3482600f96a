//! Record transform: turns one raw record into one internal record, writing
//! its strings into the text arena, its tag and transfer-descriptor batches
//! into the slab arenas, and resolving names through the dictionary
//! builders. A transform either fully succeeds or fails atomically.

use vstd::prelude::*;
use vstd::string::StrSliceExecFns;
use crate::arena::{
    lemma_append_prefix, lemma_prefix_trans, lemma_str_at_prefix, str_at, Arena, StringArena,
};
use crate::data::{item_wf, torrent_wf, Item, Tag, Torrent};
use crate::dict::{
    dict_id_of, dict_insert, lemma_dict_insert_prefix, lemma_dict_insert_preserves_ids,
    HashSetIdBuilder,
};
use crate::disowned::DisownedTable;
use crate::parse::{
    optional_u64_field, rating_field, spec_category_code, spec_category_of, spec_opt_u64_value,
    spec_parse_tag, spec_prefix_code, spec_rating_value, spec_u32_value, spec_u64_value, u32_field,
    u64_field, Category, Root1, SchemaError, Torrents1,
};
use crate::text::{is_blank, str_eq, strip_prefix, strip_prefix_spec};

verus! {

/// The sentinel the raw uploader field carries for a withdrawn contribution.
pub open spec fn withdrawn_sentinel() -> Seq<char> {
    "(Disowned)"@
}

/// The CDN host prefix stripped from thumbnail paths before storage.
pub open spec fn host_prefix() -> Seq<char> {
    "https://ehgt.org/"@
}

/// The raw category label is one of the fixed set.
pub open spec fn category_ok(raw: Root1) -> bool {
    spec_category_of(raw.category@) is Some
}

/// A raw transfer descriptor's numeric fields all denote values.
pub open spec fn torrent_numbers_ok(t: Torrents1) -> bool {
    &&& spec_u64_value(t.added) is Some
    &&& spec_u64_value(t.fsize) is Some
    &&& spec_u64_value(t.tsize) is Some
}

pub open spec fn torrents_numbers_ok(ts: Seq<Torrents1>) -> bool {
    forall|k: int| 0 <= k < ts.len() ==> torrent_numbers_ok(ts[k])
}

/// Every numeric field of the raw record denotes a value: required fields
/// are never null, optional identifiers may be.
pub open spec fn numbers_ok(raw: Root1) -> bool {
    &&& spec_u32_value(raw.filecount) is Some
    &&& spec_u64_value(raw.posted) is Some
    &&& spec_u32_value(raw.torrentcount) is Some
    &&& spec_rating_value(raw.rating) is Some
    &&& spec_opt_u64_value(raw.current_gid) is Some
    &&& spec_opt_u64_value(raw.first_gid) is Some
    &&& spec_opt_u64_value(raw.parent_gid) is Some
    &&& torrents_numbers_ok(raw.torrents@)
}

pub open spec fn tags_ok_list(tags: Seq<String>) -> bool {
    forall|k: int| 0 <= k < tags.len() ==> spec_parse_tag(tags[k]@) is Some
}

/// Every raw tag splits into a recognized keyword (or none) and a value.
pub open spec fn tags_ok(raw: Root1) -> bool {
    tags_ok_list(raw.tags@)
}

/// The transform succeeds on exactly these records.
pub open spec fn record_ok(raw: Root1) -> bool {
    category_ok(raw) && numbers_ok(raw) && tags_ok(raw)
}

/// How the record's user id relates to the raw uploader field: the sentinel
/// sends the lookup through the reassignment table, whose miss leaves the
/// record without attribution; a normal name resolves directly.
pub open spec fn uploader_resolved(
    uploader: Seq<char>,
    gid: u64,
    disowned: Map<u64, Seq<char>>,
    users: Seq<Seq<char>>,
    uid: Option<usize>,
) -> bool {
    if uploader == withdrawn_sentinel() {
        match uid {
            Option::Some(id) => disowned.contains_key(gid) && dict_id_of(
                users,
                disowned[gid],
                id as int,
            ),
            Option::None => !disowned.contains_key(gid),
        }
    } else {
        match uid {
            Option::Some(id) => dict_id_of(users, uploader, id as int),
            Option::None => false,
        }
    }
}

/// Resolves the raw uploader field to a user dictionary id, or to none for a
/// withdrawn contribution with no recorded reassignment.
pub fn resolve_uploader(
    uploader: &String,
    gid: u64,
    disowned: &DisownedTable,
    users: &mut HashSetIdBuilder,
) -> (uid: Option<usize>)
    requires
        old(users).wf(),
    ensures
        final(users).wf(),
        old(users)@.is_prefix_of(final(users)@),
        uploader_resolved(uploader@, gid, disowned@, final(users)@, uid),
{
    if str_eq(uploader.as_str(), "(Disowned)") {
        match disowned.get(gid) {
            Some(name) => {
                let owned = name.clone();
                let ghost before = users@;
                let id = users.insert(owned);
                proof {
                    lemma_dict_insert_prefix(before, name@);
                }
                Some(id)
            },
            None => {
                proof {
                    assert(users@ =~= users@.subrange(0, users@.len() as int));
                }
                None
            },
        }
    } else {
        let owned = uploader.clone();
        let ghost before = users@;
        let id = users.insert(owned);
        proof {
            lemma_dict_insert_prefix(before, uploader@);
        }
        Some(id)
    }
}

/// One stored tag entry carries the code of the raw tag's keyword and the
/// dictionary id of the raw tag's value.
pub open spec fn tag_entry_resolved(e: Tag, raw: Seq<char>, dict: Seq<Seq<char>>) -> bool {
    match spec_parse_tag(raw) {
        Option::Some(pv) => e.category == spec_prefix_code(pv.0) && dict_id_of(
            dict,
            pv.1,
            e.id as int,
        ),
        Option::None => false,
    }
}

/// One stored transfer descriptor carries the raw descriptor's numeric
/// values and handles reading back its hash and optional name.
pub open spec fn torrent_entry_resolved(e: Torrent, raw: Torrents1, text: Seq<char>) -> bool {
    &&& torrent_wf(e, text)
    &&& Option::Some(e.added) == spec_u64_value(raw.added)
    &&& Option::Some(e.fsize) == spec_u64_value(raw.fsize)
    &&& Option::Some(e.tsize) == spec_u64_value(raw.tsize)
    &&& str_at(text, e.hash) == raw.hash@
    &&& match (e.name, raw.name) {
        (Option::Some(r), Option::Some(nm)) => str_at(text, r) == nm@,
        (Option::None, Option::None) => true,
        _ => false,
    }
}

proof fn lemma_torrent_resolved_prefix(e: Torrent, raw: Torrents1, a: Seq<char>, b: Seq<char>)
    requires
        torrent_entry_resolved(e, raw, a),
        a.is_prefix_of(b),
    ensures
        torrent_entry_resolved(e, raw, b),
{
    lemma_str_at_prefix(a, b, e.hash);
    match e.name {
        Option::Some(r) => lemma_str_at_prefix(a, b, r),
        Option::None => (),
    }
}

/// Splits and validates every raw tag; mutates nothing.
fn parse_tag_list(tags: &Vec<String>) -> (r: Result<Vec<crate::parse::Tag>, SchemaError>)
    ensures
        match r {
            Ok(ps) => {
                &&& tags_ok_list(tags@)
                &&& ps@.len() == tags@.len()
                &&& forall|k: int|
                    0 <= k < tags@.len() ==> match #[trigger] spec_parse_tag(tags@[k]@) {
                        Option::Some(pv) => ps@[k].prefix == pv.0 && ps@[k].tag@ == pv.1,
                        Option::None => false,
                    }
            },
            Err(e) => e == SchemaError::BadTagPrefix && !tags_ok_list(tags@),
        },
{
    let mut ps: Vec<crate::parse::Tag> = Vec::new();
    let mut k: usize = 0;
    while k < tags.len()
        invariant
            k <= tags@.len(),
            ps@.len() == k,
            forall|j: int|
                0 <= j < k ==> match #[trigger] spec_parse_tag(tags@[j]@) {
                    Option::Some(pv) => ps@[j].prefix == pv.0 && ps@[j].tag@ == pv.1,
                    Option::None => false,
                },
        decreases tags@.len() - k,
    {
        match crate::parse::Tag::parse(tags[k].as_str()) {
            Ok(t) => {
                ps.push(t);
            },
            Err(_) => {
                proof {
                    assert(spec_parse_tag(tags@[k as int]@) is None);
                }
                return Err(SchemaError::BadTagPrefix);
            },
        }
        k += 1;
    }
    Ok(ps)
}

/// What a successful transform promises of the produced item, relative to
/// the pools and dictionaries as they stand after the call.
pub open spec fn item_matches(
    item: Item,
    raw: Root1,
    text: Seq<char>,
    tag_pool: Seq<Tag>,
    tor_pool: Seq<Torrent>,
    users: Seq<Seq<char>>,
    tag_dict: Seq<Seq<char>>,
    disowned: Map<u64, Seq<char>>,
) -> bool {
    &&& item.gid == raw.gid
    &&& item_wf(item, text, tag_pool.len() as int, tor_pool.len() as int, users.len() as int)
    &&& str_at(text, item.token) == raw.token@
    &&& str_at(text, item.title) == raw.title@
    &&& match (item.title_jpn, raw.title_jpn) {
        (Option::Some(r), Option::Some(t)) => !is_blank(t@) && str_at(text, r) == t@,
        (Option::None, Option::Some(t)) => is_blank(t@),
        (Option::None, Option::None) => true,
        _ => false,
    }
    &&& str_at(text, item.thumb) == strip_prefix_spec(raw.thumb@, host_prefix())
    &&& match spec_category_of(raw.category@) {
        Option::Some(c) => item.category == spec_category_code(c),
        Option::None => false,
    }
    &&& Option::Some(item.rating) == spec_rating_value(raw.rating)
    &&& Option::Some(item.filecount) == spec_u32_value(raw.filecount)
    &&& item.filesize == raw.filesize
    &&& Option::Some(item.posted) == spec_u64_value(raw.posted)
    &&& Option::Some(item.torrentcount) == spec_u32_value(raw.torrentcount)
    &&& Option::Some(item.first_gid) == spec_opt_u64_value(raw.first_gid)
    &&& Option::Some(item.parent_gid) == spec_opt_u64_value(raw.parent_gid)
    &&& item.dumped == raw.dumped
    &&& item.expunged == raw.expunged
    &&& uploader_resolved(raw.uploader@, raw.gid, disowned, users, item.uploader)
    &&& item.tags.end - item.tags.start == raw.tags@.len()
    &&& forall|i: int|
        item.tags.start <= i < item.tags.end ==> tag_entry_resolved(
            #[trigger] tag_pool[i],
            raw.tags@[i - item.tags.start]@,
            tag_dict,
        )
    &&& item.torrents.end - item.torrents.start == raw.torrents@.len()
    &&& forall|i: int|
        item.torrents.start <= i < item.torrents.end ==> torrent_entry_resolved(
            #[trigger] tor_pool[i],
            raw.torrents@[i - item.torrents.start],
            text,
        )
}

proof fn lemma_tag_resolved_insert(e: Tag, raw: Seq<char>, dict: Seq<Seq<char>>, u: Seq<char>)
    requires
        tag_entry_resolved(e, raw, dict),
    ensures
        tag_entry_resolved(e, raw, dict_insert(dict, u)),
{
    match spec_parse_tag(raw) {
        Option::Some(pv) => lemma_dict_insert_preserves_ids(dict, u, pv.1, e.id as int),
        Option::None => (),
    }
}

struct TorrentNums {
    added: u64,
    fsize: u64,
    tsize: u64,
}

/// Validates every raw transfer descriptor's numeric fields; mutates nothing.
fn validate_torrent_numbers(ts: &Vec<Torrents1>) -> (r: Result<Vec<TorrentNums>, SchemaError>)
    ensures
        match r {
            Ok(nums) => {
                &&& torrents_numbers_ok(ts@)
                &&& nums@.len() == ts@.len()
                &&& forall|k: int|
                    0 <= k < ts@.len() ==> {
                        &&& Option::Some(nums@[k].added) == spec_u64_value(ts@[k].added)
                        &&& Option::Some(nums@[k].fsize) == spec_u64_value(ts@[k].fsize)
                        &&& Option::Some(nums@[k].tsize) == spec_u64_value(ts@[k].tsize)
                    }
            },
            Err(e) => e == SchemaError::BadNumber && !torrents_numbers_ok(ts@),
        },
{
    let mut nums: Vec<TorrentNums> = Vec::new();
    let mut k: usize = 0;
    while k < ts.len()
        invariant
            k <= ts@.len(),
            nums@.len() == k,
            forall|j: int|
                0 <= j < k ==> {
                    &&& Option::Some(nums@[j].added) == spec_u64_value(ts@[j].added)
                    &&& Option::Some(nums@[j].fsize) == spec_u64_value(ts@[j].fsize)
                    &&& Option::Some(nums@[j].tsize) == spec_u64_value(ts@[j].tsize)
                },
        decreases ts@.len() - k,
    {
        let t = &ts[k];
        let added = match u64_field(&t.added) {
            Ok(v) => v,
            Err(_) => {
                proof {
                    assert(!torrent_numbers_ok(ts@[k as int]));
                }
                return Err(SchemaError::BadNumber);
            },
        };
        let fsize = match u64_field(&t.fsize) {
            Ok(v) => v,
            Err(_) => {
                proof {
                    assert(!torrent_numbers_ok(ts@[k as int]));
                }
                return Err(SchemaError::BadNumber);
            },
        };
        let tsize = match u64_field(&t.tsize) {
            Ok(v) => v,
            Err(_) => {
                proof {
                    assert(!torrent_numbers_ok(ts@[k as int]));
                }
                return Err(SchemaError::BadNumber);
            },
        };
        nums.push(TorrentNums { added, fsize, tsize });
        k += 1;
    }
    Ok(nums)
}

/// Maps one raw record into one internal record: resolves the uploader and
/// the tags through the dictionary builders, writes every string into the
/// text arena and both sub-lists into their slab arenas. Succeeds on exactly
/// the schema-valid records; on failure nothing has been written.
#[verifier::loop_isolation(false)]
#[verifier::rlimit(60)]
pub fn transform(
    raw: Root1,
    users: &mut HashSetIdBuilder,
    tags_b: &mut HashSetIdBuilder,
    disowned: &DisownedTable,
    arena: &mut StringArena,
    tag_arena: &mut Arena<Tag>,
    torrent_arena: &mut Arena<Torrent>,
) -> (r: Result<Item, SchemaError>)
    requires
        old(users).wf(),
        old(tags_b).wf(),
    ensures
        final(users).wf(),
        final(tags_b).wf(),
        old(users)@.is_prefix_of(final(users)@),
        old(tags_b)@.is_prefix_of(final(tags_b)@),
        old(arena)@.is_prefix_of(final(arena)@),
        old(tag_arena)@.is_prefix_of(final(tag_arena)@),
        old(torrent_arena)@.is_prefix_of(final(torrent_arena)@),
        r is Ok <==> record_ok(raw),
        r matches Ok(item) ==> {
            &&& item.tags.start == old(tag_arena)@.len()
            &&& item.tags.end == final(tag_arena)@.len()
            &&& item.torrents.start == old(torrent_arena)@.len()
            &&& item.torrents.end == final(torrent_arena)@.len()
        },
        r matches Ok(item) ==> item_matches(
            item,
            raw,
            final(arena)@,
            final(tag_arena)@,
            final(torrent_arena)@,
            final(users)@,
            final(tags_b)@,
            disowned@,
        ),
        r matches Err(e) ==> {
            &&& final(users)@ == old(users)@
            &&& final(tags_b)@ == old(tags_b)@
            &&& final(arena)@ == old(arena)@
            &&& final(tag_arena)@ == old(tag_arena)@
            &&& final(torrent_arena)@ == old(torrent_arena)@
            &&& (e == SchemaError::BadCategory <==> !category_ok(raw))
            &&& (e == SchemaError::BadNumber <==> category_ok(raw) && !numbers_ok(raw))
            &&& (e == SchemaError::BadTagPrefix <==> category_ok(raw) && numbers_ok(raw)
                && !tags_ok(raw))
        },
{
    broadcast use crate::arena::lemma_prefix_refl;
    // Validation first: nothing below mutates until the whole record is known
    // to be schema-valid.
    let category = match Category::parse(raw.category.as_str()) {
        Ok(c) => c,
        Err(e) => { return Err(e); },
    };
    let filecount = match u32_field(&raw.filecount) {
        Ok(v) => v,
        Err(e) => { return Err(e); },
    };
    let posted = match u64_field(&raw.posted) {
        Ok(v) => v,
        Err(e) => { return Err(e); },
    };
    let torrentcount = match u32_field(&raw.torrentcount) {
        Ok(v) => v,
        Err(e) => { return Err(e); },
    };
    let rating = match rating_field(&raw.rating) {
        Ok(v) => v,
        Err(e) => { return Err(e); },
    };
    match optional_u64_field(&raw.current_gid) {
        Ok(_) => (),
        Err(e) => { return Err(e); },
    };
    let first_gid = match optional_u64_field(&raw.first_gid) {
        Ok(v) => v,
        Err(e) => { return Err(e); },
    };
    let parent_gid = match optional_u64_field(&raw.parent_gid) {
        Ok(v) => v,
        Err(e) => { return Err(e); },
    };
    let nums = match validate_torrent_numbers(&raw.torrents) {
        Ok(v) => v,
        Err(e) => { return Err(e); },
    };
    let parsed_tags = match parse_tag_list(&raw.tags) {
        Ok(v) => v,
        Err(e) => { return Err(e); },
    };

    // The record is valid; resolve and write.
    let uid = resolve_uploader(&raw.uploader, raw.gid, disowned, users);

    // Transfer descriptors: numeric values plus hash and name text handles.
    let ghost arena0 = arena@;
    let mut entries: Vec<Torrent> = Vec::new();
    let mut k: usize = 0;
    while k < raw.torrents.len()
        invariant
            k <= raw.torrents@.len(),
            entries@.len() == k,
            arena0.is_prefix_of(arena@),
            forall|j: int|
                0 <= j < k ==> torrent_entry_resolved(
                    #[trigger] entries@[j],
                    raw.torrents@[j],
                    arena@,
                ),
        decreases raw.torrents@.len() - k,
    {
        let t = &raw.torrents[k];
        let ghost a_pre = arena@;
        let hash_r = arena.add(t.hash.as_str());
        proof {
            lemma_append_prefix(a_pre, t.hash@);
        }
        let name_r = match &t.name {
            Some(nm) => {
                let ghost a_mid = arena@;
                let rr = arena.add(nm.as_str());
                proof {
                    lemma_append_prefix(a_mid, nm@);
                    lemma_str_at_prefix(a_mid, arena@, hash_r);
                    lemma_prefix_trans(a_pre, a_mid, arena@);
                }
                Some(rr)
            },
            None => None,
        };
        let nk = &nums[k];
        let e = Torrent { added: nk.added, fsize: nk.fsize, hash: hash_r, name: name_r, tsize: nk.tsize };
        proof {
            lemma_prefix_trans(arena0, a_pre, arena@);
            assert forall|j: int| 0 <= j < k implies torrent_entry_resolved(
                #[trigger] entries@[j],
                raw.torrents@[j],
                arena@,
            ) by {
                lemma_torrent_resolved_prefix(entries@[j], raw.torrents@[j], a_pre, arena@);
            }
            assert(torrent_entry_resolved(e, raw.torrents@[k as int], arena@));
        }
        entries.push(e);
        k += 1;
    }
    let trange = torrent_arena.add_slice(entries);
    let ghost arena_t = arena@;

    // Tags: each value resolved to a dictionary id, appended as one batch.
    let mut tag_entries: Vec<Tag> = Vec::new();
    let mut k2: usize = 0;
    while k2 < parsed_tags.len()
        invariant
            k2 <= parsed_tags@.len(),
            tag_entries@.len() == k2,
            tags_b.wf(),
            old(tags_b)@.is_prefix_of(tags_b@),
            forall|j: int|
                0 <= j < k2 ==> tag_entry_resolved(
                    #[trigger] tag_entries@[j],
                    raw.tags@[j]@,
                    tags_b@,
                ),
        decreases parsed_tags@.len() - k2,
    {
        let pt = &parsed_tags[k2];
        let cat = pt.prefix.code();
        let ghost before = tags_b@;
        let id = tags_b.insert(pt.tag.clone());
        let e = Tag { id, category: cat };
        proof {
            lemma_dict_insert_prefix(before, pt.tag@);
            lemma_prefix_trans(old(tags_b)@, before, tags_b@);
            assert forall|j: int| 0 <= j < k2 implies tag_entry_resolved(
                #[trigger] tag_entries@[j],
                raw.tags@[j]@,
                tags_b@,
            ) by {
                lemma_tag_resolved_insert(tag_entries@[j], raw.tags@[j]@, before, pt.tag@);
            }
            assert(tag_entry_resolved(e, raw.tags@[k2 as int]@, tags_b@));
        }
        tag_entries.push(e);
        k2 += 1;
    }
    let tags_range = tag_arena.add_slice(tag_entries);

    // Strings: token, title, optional secondary title, stripped thumbnail.
    let ghost a_tok = arena@;
    let token_r = arena.add(raw.token.as_str());
    proof {
        lemma_append_prefix(a_tok, raw.token@);
    }
    let ghost a_tit = arena@;
    let title_r = arena.add(raw.title.as_str());
    proof {
        lemma_append_prefix(a_tit, raw.title@);
        lemma_str_at_prefix(a_tit, arena@, token_r);
        lemma_prefix_trans(a_tok, a_tit, arena@);
    }
    let jpn_r = match &raw.title_jpn {
        Some(t) => {
            if check_blank_str(t) {
                None
            } else {
                let ghost a_jpn = arena@;
                let rr = arena.add(t.as_str());
                proof {
                    lemma_append_prefix(a_jpn, t@);
                    lemma_str_at_prefix(a_jpn, arena@, token_r);
                    lemma_str_at_prefix(a_jpn, arena@, title_r);
                    lemma_prefix_trans(a_tok, a_jpn, arena@);
                }
                Some(rr)
            }
        },
        None => None,
    };
    let ghost a_th = arena@;
    let thumb_s = strip_prefix(raw.thumb.as_str(), "https://ehgt.org/");
    let thumb_r = arena.add(thumb_s);
    proof {
        lemma_append_prefix(a_th, thumb_s@);
        lemma_str_at_prefix(a_th, arena@, token_r);
        lemma_str_at_prefix(a_th, arena@, title_r);
        match jpn_r {
            Option::Some(rr) => lemma_str_at_prefix(a_th, arena@, rr),
            Option::None => (),
        }
        lemma_prefix_trans(a_tok, a_th, arena@);
        lemma_prefix_trans(arena_t, a_tok, arena@);
        lemma_prefix_trans(arena0, arena_t, arena@);
        lemma_prefix_trans(old(arena)@, arena0, arena@);
    }

    let item = Item {
        gid: raw.gid,
        token: token_r,
        first_gid,
        parent_gid,
        title: title_r,
        title_jpn: jpn_r,
        thumb: thumb_r,
        category: category.code(),
        rating,
        tags: tags_range,
        filecount,
        filesize: raw.filesize,
        torrentcount,
        torrents: trange,
        uploader: uid,
        posted,
        dumped: raw.dumped,
        expunged: raw.expunged,
    };
    proof {
        assert forall|i: int|
            item.torrents.start <= i < item.torrents.end implies torrent_entry_resolved(
            #[trigger] torrent_arena@[i],
            raw.torrents@[i - item.torrents.start],
            arena@,
        ) by {
            let j = i - item.torrents.start;
            assert(torrent_arena@[i] == entries@[j]);
            lemma_torrent_resolved_prefix(entries@[j], raw.torrents@[j], arena_t, arena@);
        }
        assert forall|i: int|
            item.tags.start <= i < item.tags.end implies tag_entry_resolved(
            #[trigger] tag_arena@[i],
            raw.tags@[i - item.tags.start]@,
            tags_b@,
        ) by {
            let j = i - item.tags.start;
            assert(tag_arena@[i] == tag_entries@[j]);
        }
        match uid {
            Option::Some(id) => assert((id as int) < users@.len()),
            Option::None => (),
        }
    }
    Ok(item)
}

/// Whether a borrowed string is blank, see `is_blank`.
fn check_blank_str(s: &String) -> (r: bool)
    ensures
        r == is_blank(s@),
{
    crate::text::check_blank(s.as_str())
}

} // verus!
