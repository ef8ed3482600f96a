use db_creator::disowned::DisownedTable;
use db_creator::parse::{
    empty_string_as_none, optional_u64_field, rating_field, u32_field, u64_field, Category,
    RawValue, SchemaError, Tag, TagPrefix,
};
use db_creator::text::{find_char, parse_u64, str_eq, strip_prefix};

#[test]
fn parse_u64_exact_values() {
    assert_eq!(parse_u64("0"), Some(0));
    assert_eq!(parse_u64("123"), Some(123));
    assert_eq!(parse_u64("18446744073709551615"), Some(u64::MAX));
}

#[test]
fn parse_u64_rejects_bad_input() {
    assert_eq!(parse_u64(""), None);
    assert_eq!(parse_u64("12a"), None);
    assert_eq!(parse_u64("-1"), None);
    assert_eq!(parse_u64("1.5"), None);
    assert_eq!(parse_u64("18446744073709551616"), None);
}

#[test]
fn str_helpers() {
    assert!(str_eq("abc", "abc"));
    assert!(!str_eq("abc", "abd"));
    assert!(!str_eq("abc", "ab"));
    assert_eq!(find_char("a:b", ':'), 1);
    assert_eq!(find_char("ab", ':'), 2);
    assert_eq!(strip_prefix("https://ehgt.org/x/y.jpg", "https://ehgt.org/"), "x/y.jpg");
    assert_eq!(strip_prefix("other/x.jpg", "https://ehgt.org/"), "other/x.jpg");
}

#[test]
fn required_field_accepts_both_arrival_forms() {
    assert_eq!(u64_field(&RawValue::Integer(42)), Ok(42));
    assert_eq!(u64_field(&RawValue::Text("42".to_string())), Ok(42));
    assert_eq!(u64_field(&RawValue::Null), Err(SchemaError::BadNumber));
    assert_eq!(u64_field(&RawValue::Text("4x".to_string())), Err(SchemaError::BadNumber));
}

#[test]
fn optional_field_accepts_null() {
    assert_eq!(optional_u64_field(&RawValue::Null), Ok(None));
    assert_eq!(optional_u64_field(&RawValue::Integer(7)), Ok(Some(7)));
    assert_eq!(optional_u64_field(&RawValue::Text("7".to_string())), Ok(Some(7)));
    assert_eq!(
        optional_u64_field(&RawValue::Text("x".to_string())),
        Err(SchemaError::BadNumber)
    );
}

#[test]
fn u32_field_checks_range() {
    assert_eq!(u32_field(&RawValue::Integer(4294967295)), Ok(u32::MAX));
    assert_eq!(u32_field(&RawValue::Integer(4294967296)), Err(SchemaError::BadNumber));
    assert_eq!(u32_field(&RawValue::Text("12".to_string())), Ok(12));
}

#[test]
fn rating_parses_to_hundredths() {
    assert_eq!(rating_field(&RawValue::Text("4.53".to_string())), Ok(453));
    assert_eq!(rating_field(&RawValue::Text("4.5".to_string())), Ok(450));
    assert_eq!(rating_field(&RawValue::Text("4.".to_string())), Ok(400));
    assert_eq!(rating_field(&RawValue::Text("4".to_string())), Ok(400));
    assert_eq!(rating_field(&RawValue::Text("0.00".to_string())), Ok(0));
    assert_eq!(rating_field(&RawValue::Integer(5)), Ok(500));
    assert_eq!(rating_field(&RawValue::Null), Err(SchemaError::BadNumber));
    assert_eq!(
        rating_field(&RawValue::Text("4.535".to_string())),
        Err(SchemaError::BadNumber)
    );
    assert_eq!(
        rating_field(&RawValue::Text("x.5".to_string())),
        Err(SchemaError::BadNumber)
    );
}

#[test]
fn blank_secondary_title_is_absent() {
    assert_eq!(empty_string_as_none(None), None);
    assert_eq!(empty_string_as_none(Some("".to_string())), None);
    assert_eq!(empty_string_as_none(Some("  \t".to_string())), None);
    assert_eq!(
        empty_string_as_none(Some("題名".to_string())),
        Some("題名".to_string())
    );
}

#[test]
fn category_labels_parse_to_dense_codes() {
    let cases: Vec<(&str, u8)> = vec![
        ("Doujinshi", 0),
        ("Manga", 1),
        ("Artist CG", 2),
        ("Game CG", 3),
        ("Western", 4),
        ("Non-H", 5),
        ("Image Set", 6),
        ("Cosplay", 7),
        ("Asian Porn", 8),
        ("Misc", 9),
        ("private", 10),
    ];
    for (label, code) in cases {
        let c = Category::parse(label).unwrap();
        assert_eq!(c.code(), code);
    }
}

#[test]
fn unknown_category_label_is_fatal() {
    assert_eq!(Category::parse("Bogus"), Err(SchemaError::BadCategory));
    assert_eq!(Category::parse("doujinshi"), Err(SchemaError::BadCategory));
    assert_eq!(Category::parse(""), Err(SchemaError::BadCategory));
}

#[test]
fn tag_with_keyword_parses() {
    let t = Tag::parse("character:Alice").unwrap();
    assert_eq!(t.prefix, TagPrefix::Character);
    assert_eq!(t.tag, "Alice");
}

#[test]
fn tag_without_colon_has_no_keyword() {
    let t = Tag::parse("Alice").unwrap();
    assert_eq!(t.prefix, TagPrefix::Unprefixed);
    assert_eq!(t.tag, "Alice");
}

#[test]
fn tag_with_unknown_keyword_is_fatal() {
    assert!(matches!(Tag::parse("bogus:Alice"), Err(SchemaError::BadTagPrefix)));
    assert!(matches!(Tag::parse(":Alice"), Err(SchemaError::BadTagPrefix)));
}

#[test]
fn tag_splits_on_first_colon_only() {
    let t = Tag::parse("male:a:b").unwrap();
    assert_eq!(t.prefix, TagPrefix::Male);
    assert_eq!(t.tag, "a:b");
    let t2 = Tag::parse("artist:").unwrap();
    assert_eq!(t2.prefix, TagPrefix::Artist);
    assert_eq!(t2.tag, "");
}

#[test]
fn tag_prefix_codes_cover_the_table() {
    assert_eq!(TagPrefix::Other.code(), 0);
    assert_eq!(TagPrefix::Female.code(), 1);
    assert_eq!(TagPrefix::Male.code(), 2);
    assert_eq!(TagPrefix::Mixed.code(), 3);
    assert_eq!(TagPrefix::Language.code(), 4);
    assert_eq!(TagPrefix::Reclass.code(), 5);
    assert_eq!(TagPrefix::Parody.code(), 6);
    assert_eq!(TagPrefix::Character.code(), 7);
    assert_eq!(TagPrefix::Group.code(), 8);
    assert_eq!(TagPrefix::Artist.code(), 9);
    assert_eq!(TagPrefix::Cosplayer.code(), 10);
    assert_eq!(TagPrefix::Location.code(), 11);
    assert_eq!(TagPrefix::Temp.code(), 12);
    assert_eq!(TagPrefix::Unprefixed.code(), 13);
}

#[test]
fn render_writes_keyword_and_value() {
    let t = Tag::parse("character:Alice").unwrap();
    assert_eq!(t.render(), "character:Alice");
    let bare = Tag::parse("Alice").unwrap();
    assert_eq!(bare.render(), "none:Alice");
    let nested = Tag::parse("male:a:b").unwrap();
    assert_eq!(nested.render(), "male:a:b");
}

#[test]
fn disowned_table_parses_and_skips() {
    let lines = vec![
        "100:alice".to_string(),
        "no colon here".to_string(),
        "101:bob smith".to_string(),
        "100:carol".to_string(),
    ];
    let t = DisownedTable::from_lines(&lines).unwrap();
    assert_eq!(t.get(100).map(|s| s.as_str()), Some("carol"));
    assert_eq!(t.get(101).map(|s| s.as_str()), Some("bob smith"));
    assert!(t.get(102).is_none());
    assert_eq!(t.len(), 2);
}

#[test]
fn disowned_table_rejects_bad_identifier() {
    let lines = vec!["abc:alice".to_string()];
    assert!(matches!(
        DisownedTable::from_lines(&lines),
        Err(SchemaError::BadNumber)
    ));
}
