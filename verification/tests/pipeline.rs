use rwr_gfl_armor_parser::model::{fresh_output, Opt};
use rwr_gfl_armor_parser::parse::extract_from_events;
use rwr_gfl_armor_parser::pipeline::{filter_and_enrich, process_events, rows_of, to_row};
use rwr_gfl_armor_parser::translation::TranslationTable;
use rwr_gfl_armor_parser::xml::tokenize;

#[test]
fn round_trip_single_armor_item() {
    let events = tokenize(r#"<carry_item name="armor_a" slot="1"></carry_item>"#).unwrap();
    let mut table = TranslationTable::new();
    table.insert("armor_a".to_string(), "护甲A".to_string());
    let mut log: Vec<String> = Vec::new();
    let rows = process_events(&events, "a.carry_item", &table, &mut log).unwrap();
    assert_eq!(rows.len(), 1);
    assert_eq!(rows[0].len(), 14);
    assert_eq!(rows[0][0], "a.carry_item");
    assert_eq!(rows[0][2], "armor_a");
    assert_eq!(rows[0][4], "1");
    assert_eq!(rows[0][13], "护甲A");
}

#[test]
fn category_filter_drops_other_slots() {
    let events = tokenize(
        r#"<root><carry_item name="a" slot="1"></carry_item><carry_item name="b" slot="2"></carry_item><carry_item name="c"></carry_item></root>"#,
    )
    .unwrap();
    let table = TranslationTable::new();
    let mut log: Vec<String> = Vec::new();
    let rows = process_events(&events, "f.carry_item", &table, &mut log).unwrap();
    assert_eq!(rows.len(), 1);
    assert_eq!(rows[0][2], "a");
}

#[test]
fn enrichment_with_absent_key_leaves_name_unset() {
    let events = tokenize(
        r#"<root><carry_item name="x" slot="1"></carry_item><carry_item slot="1"></carry_item></root>"#,
    )
    .unwrap();
    let mut table = TranslationTable::new();
    table.insert("other".to_string(), "别名".to_string());
    let mut log: Vec<String> = Vec::new();
    let rows = process_events(&events, "e.carry_item", &table, &mut log).unwrap();
    assert_eq!(rows.len(), 2);
    // a record whose name has no table entry keeps its localized name empty
    assert_eq!(rows[0][13], "");
    // a record without a name never performs a lookup
    assert_eq!(rows[1][2], "");
    assert_eq!(rows[1][13], "");
}

#[test]
fn enrichment_fills_localized_name() {
    let events = tokenize(r#"<carry_item name="x" slot="1"></carry_item>"#).unwrap();
    let mut table = TranslationTable::new();
    table.insert("x".to_string(), "译名".to_string());
    let mut log: Vec<String> = Vec::new();
    let recs = extract_from_events(&events, "e.carry_item", &mut log).unwrap();
    let kept = filter_and_enrich(recs, &table);
    assert_eq!(kept.len(), 1);
    assert_eq!(kept[0].cn_name.as_deref(), Some("译名"));
}

#[test]
fn numeric_failure_yields_no_rows() {
    let events =
        tokenize(r#"<carry_item slot="1" drop_count_factor_on_death="abc"></carry_item>"#).unwrap();
    let table = TranslationTable::new();
    let mut log: Vec<String> = Vec::new();
    assert!(process_events(&events, "n.carry_item", &table, &mut log).is_err());
}

#[test]
fn extraction_is_idempotent() {
    let xml = r#"<root><carry_item name="a" slot="1" drop_count_factor_on_death="0.5"><modifier class="speed" value="0.7"/></carry_item><carry_item name="b" slot="1"></carry_item></root>"#;
    let mut table = TranslationTable::new();
    table.insert("a".to_string(), "甲".to_string());
    let events1 = tokenize(xml).unwrap();
    let events2 = tokenize(xml).unwrap();
    let mut log1: Vec<String> = Vec::new();
    let mut log2: Vec<String> = Vec::new();
    let rows1 = process_events(&events1, "i.carry_item", &table, &mut log1).unwrap();
    let rows2 = process_events(&events2, "i.carry_item", &table, &mut log2).unwrap();
    assert_eq!(rows1, rows2);
    assert_eq!(log1, log2);
}

#[test]
fn row_layout_has_fixed_column_order() {
    let mut o = fresh_output("s.carry_item");
    o.key = Some("k".to_string());
    o.name = Some("n".to_string());
    o.transform_on_consume = Some("t".to_string());
    o.slot = Some(-7);
    o.drop_count_factor_on_death = Some("0.1".to_string());
    o.time_to_live_out_in_the_open = Some("0.2".to_string());
    o.player_death_drop_owner_lock_time = Some("0.3".to_string());
    o.modifier_hit_success_probability = Some("h".to_string());
    o.modifier_detectability = Some("d".to_string());
    o.modifier_night_detectability = Some("nd".to_string());
    o.modifier_speed = Some("sp".to_string());
    o.hud_icon = Some("i.png".to_string());
    o.cn_name = Some("名".to_string());
    let row = to_row(&o);
    assert_eq!(
        row,
        vec![
            "s.carry_item", "k", "n", "t", "-7", "0.1", "0.2", "0.3", "h", "d", "nd", "sp",
            "i.png", "名"
        ]
    );
}

#[test]
fn empty_fields_serialize_as_empty_columns() {
    let o = fresh_output("s.carry_item");
    let row = to_row(&o);
    assert_eq!(row.len(), 14);
    assert_eq!(row[0], "s.carry_item");
    for col in row.iter().skip(1) {
        assert_eq!(col, "");
    }
}

#[test]
fn options_carry_both_paths() {
    let o = Opt { input: "items".to_string(), translation: "cn.xml".to_string() };
    assert_eq!(o.input, "items");
    assert_eq!(o.translation, "cn.xml");
}

#[test]
fn rows_of_keeps_record_order() {
    let events = tokenize(
        r#"<root><carry_item name="a" slot="1"></carry_item><carry_item name="b" slot="1"></carry_item></root>"#,
    )
    .unwrap();
    let mut log: Vec<String> = Vec::new();
    let recs = extract_from_events(&events, "o.carry_item", &mut log).unwrap();
    let table = TranslationTable::new();
    let kept = filter_and_enrich(recs, &table);
    let rows = rows_of(&kept);
    assert_eq!(rows.len(), 2);
    assert_eq!(rows[0][2], "a");
    assert_eq!(rows[1][2], "b");
}
