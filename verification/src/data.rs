//! The internal record shapes: one catalog entry and its tag and
//! transfer-descriptor entries, all addressing their strings and sub-lists
//! through arena handles, plus the well-formedness those handles obey.

use vstd::prelude::*;
use crate::arena::{range_in, str_ref_in, SlabRange, StrRef};

verus! {

/// One resolved tag: the dictionary id of the tag value plus its category
/// code.
#[derive(Clone, Copy, PartialEq, Eq, Structural, Debug)]
pub struct Tag {
    pub id: usize,
    pub category: u8,
}

/// One transfer descriptor: added-at timestamp, post- and pre-transfer byte
/// sizes, and hash and optional display-name text handles.
#[derive(Clone, Copy, Debug)]
pub struct Torrent {
    pub added: u64,
    pub fsize: u64,
    pub hash: StrRef,
    pub name: Option<StrRef>,
    pub tsize: u64,
}

/// One catalog entry. Immutable after construction; only replaced wholesale
/// in the record map when a later record carries the same identifier.
#[derive(Clone, Copy, Debug)]
pub struct Item {
    pub gid: u64,
    pub token: StrRef,
    pub first_gid: Option<u64>,
    pub parent_gid: Option<u64>,
    pub title: StrRef,
    pub title_jpn: Option<StrRef>,
    pub thumb: StrRef,
    pub category: u8,
    /// Rating in hundredths, so the core stays integral.
    pub rating: u32,
    pub tags: SlabRange,
    pub filecount: u32,
    pub filesize: u64,
    pub torrentcount: u32,
    pub torrents: SlabRange,
    pub uploader: Option<usize>,
    pub posted: u64,
    pub dumped: u64,
    pub expunged: bool,
}

/// A transfer descriptor's handles lie within text contents `text`.
pub open spec fn torrent_wf(t: Torrent, text: Seq<char>) -> bool {
    &&& str_ref_in(text, t.hash)
    &&& match t.name {
        Option::Some(r) => str_ref_in(text, r),
        Option::None => true,
    }
}

/// An item's handles lie within the text pool, its ranges within the two
/// slab pools, and its uploader id within the user dictionary.
pub open spec fn item_wf(
    item: Item,
    text: Seq<char>,
    tags_len: int,
    torrents_len: int,
    users_len: int,
) -> bool {
    &&& str_ref_in(text, item.token)
    &&& str_ref_in(text, item.title)
    &&& match item.title_jpn {
        Option::Some(r) => str_ref_in(text, r),
        Option::None => true,
    }
    &&& str_ref_in(text, item.thumb)
    &&& range_in(tags_len, item.tags)
    &&& range_in(torrents_len, item.torrents)
    &&& match item.uploader {
        Option::Some(id) => (id as int) < users_len,
        Option::None => true,
    }
}

/// Well-formedness is stable under growth: arenas are append-only and the
/// dictionary only ever gains values, so a well-formed item stays so.
pub proof fn lemma_item_wf_grow(
    item: Item,
    text: Seq<char>,
    text2: Seq<char>,
    tags_len: int,
    tags_len2: int,
    torrents_len: int,
    torrents_len2: int,
    users_len: int,
    users_len2: int,
)
    requires
        item_wf(item, text, tags_len, torrents_len, users_len),
        text.len() <= text2.len(),
        tags_len <= tags_len2,
        torrents_len <= torrents_len2,
        users_len <= users_len2,
    ensures
        item_wf(item, text2, tags_len2, torrents_len2, users_len2),
{
}

} // verus!
