use rwr_gfl_armor_parser::translation::{build_translation_from_events, TranslationTable};
use rwr_gfl_armor_parser::xml::tokenize;

#[test]
fn table_insert_and_lookup() {
    let mut t = TranslationTable::new();
    assert_eq!(t.lookup("a"), None);
    t.insert("a".to_string(), "一".to_string());
    t.insert("b".to_string(), "二".to_string());
    assert_eq!(t.lookup("a").as_deref(), Some("一"));
    assert_eq!(t.lookup("b").as_deref(), Some("二"));
    assert_eq!(t.lookup("c"), None);
}

#[test]
fn repeated_key_takes_later_value() {
    let mut t = TranslationTable::new();
    t.insert("a".to_string(), "early".to_string());
    t.insert("a".to_string(), "late".to_string());
    assert_eq!(t.lookup("a").as_deref(), Some("late"));
}

#[test]
fn translation_built_from_markup() {
    let events = tokenize(
        r#"<translations><text key="armor_a" text="护甲A"/><text key="armor_b" text="护甲B"/></translations>"#,
    )
    .unwrap();
    let t = build_translation_from_events(&events);
    assert_eq!(t.lookup("armor_a").as_deref(), Some("护甲A"));
    assert_eq!(t.lookup("armor_b").as_deref(), Some("护甲B"));
    assert_eq!(t.lookup("armor_c"), None);
}

#[test]
fn translation_text_without_key_is_skipped() {
    let events = tokenize(
        r#"<translations><text text="orphan"/><text key="" text="empty"/></translations>"#,
    )
    .unwrap();
    let t = build_translation_from_events(&events);
    assert_eq!(t.lookup("orphan"), None);
    assert_eq!(t.lookup(""), None);
}

#[test]
fn translation_key_carries_within_one_tag_only() {
    // the carried key starts empty for each text tag, so a value-only tag
    // after a keyed tag inserts nothing
    let events = tokenize(
        r#"<translations><text key="a" text="一"/><text text="二"/></translations>"#,
    )
    .unwrap();
    let t = build_translation_from_events(&events);
    assert_eq!(t.lookup("a").as_deref(), Some("一"));
}

#[test]
fn translation_repeated_key_across_tags_takes_later() {
    let events = tokenize(
        r#"<translations><text key="a" text="early"/><text key="a" text="late"/></translations>"#,
    )
    .unwrap();
    let t = build_translation_from_events(&events);
    assert_eq!(t.lookup("a").as_deref(), Some("late"));
}

#[test]
fn translation_ignores_other_tags() {
    let events = tokenize(
        r#"<translations><other key="a" text="一"/><text key="b" text="二"/>loose text</translations>"#,
    )
    .unwrap();
    let t = build_translation_from_events(&events);
    assert_eq!(t.lookup("a"), None);
    assert_eq!(t.lookup("b").as_deref(), Some("二"));
}
