use db_creator::arena::{Arena, StringArena};
use db_creator::dict::HashSetIdBuilder;
use db_creator::disowned::DisownedTable;
use db_creator::parse::{RawValue, Root1, SchemaError, Torrents1};
use db_creator::store::DbBuilder;
use db_creator::transform::transform;

fn base_record(gid: u64) -> Root1 {
    Root1 {
        category: "Manga".to_string(),
        dumped: 1700000000,
        current_gid: RawValue::Null,
        expunged: false,
        filecount: RawValue::Text("24".to_string()),
        filesize: 123456,
        first_gid: RawValue::Null,
        gid,
        parent_gid: RawValue::Integer(90),
        posted: RawValue::Text("1600000000".to_string()),
        rating: RawValue::Text("4.53".to_string()),
        tags: vec!["character:Alice".to_string(), "Alice".to_string()],
        thumb: "https://ehgt.org/ab/cd.jpg".to_string(),
        title: "A Title".to_string(),
        title_jpn: Some("題名".to_string()),
        token: "tok123".to_string(),
        torrentcount: RawValue::Integer(1),
        torrents: vec![Torrents1 {
            added: RawValue::Text("1500000000".to_string()),
            fsize: RawValue::Integer(1000),
            hash: "deadbeef".to_string(),
            name: Some("file.zip".to_string()),
            tsize: RawValue::Text("900".to_string()),
        }],
        uploader: "uploader_one".to_string(),
    }
}

fn empty_disowned() -> DisownedTable {
    DisownedTable::from_lines(&Vec::new()).unwrap()
}

#[test]
fn transform_fills_every_field() {
    let mut users = HashSetIdBuilder::new();
    let mut tags = HashSetIdBuilder::new();
    let disowned = empty_disowned();
    let mut arena = StringArena::new();
    let mut t_arena = Arena::new();
    let mut to_arena = Arena::new();
    let item = transform(
        base_record(77),
        &mut users,
        &mut tags,
        &disowned,
        &mut arena,
        &mut t_arena,
        &mut to_arena,
    )
    .unwrap();

    assert_eq!(item.gid, 77);
    assert_eq!(arena.get(item.token), "tok123");
    assert_eq!(arena.get(item.title), "A Title");
    assert_eq!(arena.get(item.title_jpn.unwrap()), "題名");
    assert_eq!(arena.get(item.thumb), "ab/cd.jpg");
    assert_eq!(item.category, 1);
    assert_eq!(item.rating, 453);
    assert_eq!(item.filecount, 24);
    assert_eq!(item.filesize, 123456);
    assert_eq!(item.torrentcount, 1);
    assert_eq!(item.posted, 1600000000);
    assert_eq!(item.dumped, 1700000000);
    assert_eq!(item.first_gid, None);
    assert_eq!(item.parent_gid, Some(90));
    assert!(!item.expunged);

    let uploader_id = item.uploader.unwrap();
    let built_users = users.build();
    assert_eq!(built_users[uploader_id], "uploader_one");

    let tag_entries = t_arena.get_range(item.tags);
    assert_eq!(tag_entries.len(), 2);
    assert_eq!(tag_entries[0].category, 7);
    assert_eq!(tag_entries[1].category, 13);
    assert_eq!(tag_entries[0].id, tag_entries[1].id);
    let built_tags = tags.build();
    assert_eq!(built_tags[tag_entries[0].id], "Alice");

    let torrents = to_arena.get_range(item.torrents);
    assert_eq!(torrents.len(), 1);
    assert_eq!(torrents[0].added, 1500000000);
    assert_eq!(torrents[0].fsize, 1000);
    assert_eq!(torrents[0].tsize, 900);
    assert_eq!(arena.get(torrents[0].hash), "deadbeef");
    assert_eq!(arena.get(torrents[0].name.unwrap()), "file.zip");
}

#[test]
fn blank_secondary_title_not_stored() {
    let mut users = HashSetIdBuilder::new();
    let mut tags = HashSetIdBuilder::new();
    let disowned = empty_disowned();
    let mut arena = StringArena::new();
    let mut t_arena = Arena::new();
    let mut to_arena = Arena::new();
    let mut raw = base_record(1);
    raw.title_jpn = Some("  ".to_string());
    let item = transform(
        raw, &mut users, &mut tags, &disowned, &mut arena, &mut t_arena, &mut to_arena,
    )
    .unwrap();
    assert!(item.title_jpn.is_none());
}

#[test]
fn withdrawn_uploader_resolves_through_table() {
    let mut users = HashSetIdBuilder::new();
    let mut tags = HashSetIdBuilder::new();
    let lines = vec!["500:real_owner".to_string()];
    let disowned = DisownedTable::from_lines(&lines).unwrap();
    let mut arena = StringArena::new();
    let mut t_arena = Arena::new();
    let mut to_arena = Arena::new();
    let mut raw = base_record(500);
    raw.uploader = "(Disowned)".to_string();
    let item = transform(
        raw, &mut users, &mut tags, &disowned, &mut arena, &mut t_arena, &mut to_arena,
    )
    .unwrap();
    let id = item.uploader.unwrap();
    assert_eq!(users.build()[id], "real_owner");
}

#[test]
fn withdrawn_uploader_without_entry_is_unset() {
    let mut users = HashSetIdBuilder::new();
    let mut tags = HashSetIdBuilder::new();
    let disowned = empty_disowned();
    let mut arena = StringArena::new();
    let mut t_arena = Arena::new();
    let mut to_arena = Arena::new();
    let mut raw = base_record(501);
    raw.uploader = "(Disowned)".to_string();
    let item = transform(
        raw, &mut users, &mut tags, &disowned, &mut arena, &mut t_arena, &mut to_arena,
    )
    .unwrap();
    assert!(item.uploader.is_none());
    assert_eq!(users.len(), 0);
}

#[test]
fn transform_rejects_schema_violations() {
    let disowned = empty_disowned();

    let mut raw = base_record(1);
    raw.category = "NotACategory".to_string();
    assert_eq!(run_transform(raw, &disowned), Err(SchemaError::BadCategory));

    let mut raw = base_record(2);
    raw.filecount = RawValue::Null;
    assert_eq!(run_transform(raw, &disowned), Err(SchemaError::BadNumber));

    let mut raw = base_record(3);
    raw.rating = RawValue::Text("not a number".to_string());
    assert_eq!(run_transform(raw, &disowned), Err(SchemaError::BadNumber));

    let mut raw = base_record(4);
    raw.torrents[0].added = RawValue::Null;
    assert_eq!(run_transform(raw, &disowned), Err(SchemaError::BadNumber));

    let mut raw = base_record(5);
    raw.tags = vec!["bogus:Alice".to_string()];
    assert_eq!(run_transform(raw, &disowned), Err(SchemaError::BadTagPrefix));
}

fn run_transform(raw: Root1, disowned: &DisownedTable) -> Result<u64, SchemaError> {
    let mut users = HashSetIdBuilder::new();
    let mut tags = HashSetIdBuilder::new();
    let mut arena = StringArena::new();
    let mut t_arena = Arena::new();
    let mut to_arena = Arena::new();
    transform(
        raw, &mut users, &mut tags, disowned, &mut arena, &mut t_arena, &mut to_arena,
    )
    .map(|item| item.gid)
}

#[test]
fn later_record_overwrites_earlier_one_wholesale() {
    let mut b = DbBuilder::new(empty_disowned());
    let mut bulk = base_record(42);
    bulk.title = "bulk title".to_string();
    bulk.filesize = 1;
    b.ingest(bulk).unwrap();
    let mut single = base_record(42);
    single.title = "single title".to_string();
    single.filesize = 2;
    single.uploader = "uploader_two".to_string();
    b.ingest(single).unwrap();
    let db = b.finish();
    assert_eq!(db.record_count(), 1);
    let item = *db.get_item(42).unwrap();
    assert_eq!(db.resolve(item.title), "single title");
    assert_eq!(item.filesize, 2);
    assert_eq!(db.user_name(item.uploader.unwrap()), "uploader_two");
}

#[test]
fn two_records_build_full_store() {
    let mut b = DbBuilder::new(empty_disowned());
    let mut r1 = base_record(100);
    r1.tags = vec![
        "character:Alice".to_string(),
        "language:english".to_string(),
    ];
    let mut r2 = base_record(101);
    r2.tags = vec![
        "character:Alice".to_string(),
        "artist:bob".to_string(),
        "solo".to_string(),
    ];
    r2.uploader = "uploader_two".to_string();
    b.ingest(r1).unwrap();
    b.ingest(r2).unwrap();
    let db = b.finish();

    assert_eq!(db.record_count(), 2);
    // distinct tag values across both records: Alice, english, bob, solo
    assert_eq!(db.tag_count(), 4);
    assert_eq!(db.user_count(), 2);

    let i1 = *db.get_item(100).unwrap();
    let i2 = *db.get_item(101).unwrap();
    assert_eq!(db.resolve(i1.token), "tok123");
    let t1 = db.tag_entries(i1.tags).to_vec();
    let t2 = db.tag_entries(i2.tags).to_vec();
    assert_eq!(t1.len(), 2);
    assert_eq!(t2.len(), 3);
    // the shared value resolves to the same dictionary id in both records
    assert_eq!(t1[0].id, t2[0].id);
    assert_eq!(db.tag_value(t1[0].id), "Alice");
    assert_eq!(db.tag_value(t2[1].id), "bob");
    assert_eq!(db.tag_value(t2[2].id), "solo");
    assert!(db.get_item(102).is_none());
}

#[test]
fn batch_ingest_keeps_file_order() {
    let mut b = DbBuilder::new(empty_disowned());
    let mut first = base_record(300);
    first.title = "early".to_string();
    let mut second = base_record(300);
    second.title = "late".to_string();
    b.ingest_batch(vec![first, second, base_record(301)]).unwrap();
    let db = b.finish();
    assert_eq!(db.record_count(), 2);
    let item = *db.get_item(300).unwrap();
    assert_eq!(db.resolve(item.title), "late");
}

#[test]
fn batch_ingest_stops_at_first_invalid_record() {
    let mut b = DbBuilder::new(empty_disowned());
    let mut bad = base_record(401);
    bad.tags = vec!["bogus:x".to_string()];
    let r = b.ingest_batch(vec![base_record(400), bad, base_record(402)]);
    assert_eq!(r, Err(SchemaError::BadTagPrefix));
    assert_eq!(b.record_count(), 1);
}

#[test]
fn failed_ingest_leaves_record_map_unchanged() {
    let mut b = DbBuilder::new(empty_disowned());
    let mut bad = base_record(9);
    bad.category = "Nope".to_string();
    assert_eq!(b.ingest(bad), Err(SchemaError::BadCategory));
    assert_eq!(b.record_count(), 0);
    let good = base_record(9);
    b.ingest(good).unwrap();
    assert_eq!(b.record_count(), 1);
    let db = b.finish();
    assert_eq!(db.record_count(), 1);
    assert_eq!(db.torrent_entry_count(), 1);
    assert_eq!(db.tag_entry_count(), 2);
}
