use rwr_gfl_armor_parser::model::ExtractError;
use rwr_gfl_armor_parser::parse::{extract_from_events, extract_records};
use rwr_gfl_armor_parser::xml::tokenize;

fn extract(xml: &str, src: &str, log: &mut Vec<String>) -> Vec<rwr_gfl_armor_parser::model::Output> {
    let events = tokenize(xml).unwrap();
    extract_from_events(&events, src, log).unwrap()
}

#[test]
fn single_item_basic_fields() {
    let mut log: Vec<String> = Vec::new();
    let recs = extract(
        r#"<carry_item key="k1" name="armor_a" slot="1" transform_on_consume="junk"></carry_item>"#,
        "a.carry_item",
        &mut log,
    );
    assert_eq!(recs.len(), 1);
    assert_eq!(recs[0].source_file_name, "a.carry_item");
    assert_eq!(recs[0].key.as_deref(), Some("k1"));
    assert_eq!(recs[0].name.as_deref(), Some("armor_a"));
    assert_eq!(recs[0].slot, Some(1));
    assert_eq!(recs[0].transform_on_consume.as_deref(), Some("junk"));
    assert_eq!(recs[0].cn_name, None);
    assert!(log.is_empty());
}

#[test]
fn numeric_fields_keep_their_text() {
    let mut log: Vec<String> = Vec::new();
    let recs = extract(
        r#"<carry_item drop_count_factor_on_death="0.50" time_to_live_out_in_the_open="120" player_death_drop_owner_lock_time="1e2"></carry_item>"#,
        "n.carry_item",
        &mut log,
    );
    assert_eq!(recs[0].drop_count_factor_on_death.as_deref(), Some("0.50"));
    assert_eq!(recs[0].time_to_live_out_in_the_open.as_deref(), Some("120"));
    assert_eq!(recs[0].player_death_drop_owner_lock_time.as_deref(), Some("1e2"));
}

#[test]
fn numeric_failure_aborts_file() {
    let events = tokenize(r#"<carry_item drop_count_factor_on_death="abc"></carry_item>"#).unwrap();
    let mut log: Vec<String> = Vec::new();
    let r = extract_from_events(&events, "f.carry_item", &mut log);
    assert_eq!(r.unwrap_err(), ExtractError::AttributeParse);
}

#[test]
fn slot_failure_aborts_file() {
    let mut log: Vec<String> = Vec::new();
    let events = tokenize(r#"<carry_item slot="x"></carry_item>"#).unwrap();
    assert_eq!(
        extract_from_events(&events, "s.carry_item", &mut log).unwrap_err(),
        ExtractError::AttributeParse
    );
    let events = tokenize(r#"<carry_item slot="128"></carry_item>"#).unwrap();
    assert_eq!(
        extract_from_events(&events, "s.carry_item", &mut log).unwrap_err(),
        ExtractError::AttributeParse
    );
}

#[test]
fn slot_failure_even_when_already_set() {
    // the parse happens before the first-write-wins check, so a later bad
    // slot still fails the file
    let mut log: Vec<String> = Vec::new();
    let events =
        tokenize(r#"<carry_item slot="1"><carry_item slot="oops"></carry_item></carry_item>"#)
            .unwrap();
    assert_eq!(
        extract_from_events(&events, "s.carry_item", &mut log).unwrap_err(),
        ExtractError::AttributeParse
    );
}

#[test]
fn first_write_wins_across_tags() {
    let mut log: Vec<String> = Vec::new();
    let recs = extract(
        r#"<carry_item name="a"><modifier class="speed" value="0.5"/><modifier class="speed" value="0.9"/><hud_icon filename="one.png"/><hud_icon filename="two.png"/></carry_item>"#,
        "w.carry_item",
        &mut log,
    );
    assert_eq!(recs.len(), 1);
    assert_eq!(recs[0].modifier_speed.as_deref(), Some("0.5"));
    assert_eq!(recs[0].hud_icon.as_deref(), Some("one.png"));
}

#[test]
fn first_write_wins_nested_item_tags() {
    let mut log: Vec<String> = Vec::new();
    let recs = extract(
        r#"<carry_item name="a"><carry_item name="b"></carry_item></carry_item>"#,
        "w.carry_item",
        &mut log,
    );
    // the inner close finalizes the record that carries the first name; the
    // outer close finalizes a fresh record
    assert_eq!(recs.len(), 2);
    assert_eq!(recs[0].name.as_deref(), Some("a"));
    assert_eq!(recs[1].name, None);
    assert_eq!(recs[1].source_file_name, "w.carry_item");
}

#[test]
fn modifier_value_before_class_has_no_effect() {
    let mut log: Vec<String> = Vec::new();
    let recs = extract(
        r#"<carry_item><modifier value="0.5"/></carry_item>"#,
        "m.carry_item",
        &mut log,
    );
    assert_eq!(recs[0].modifier_speed, None);
    assert_eq!(recs[0].modifier_detectability, None);
    assert_eq!(recs[0].modifier_night_detectability, None);
    assert_eq!(recs[0].modifier_hit_success_probability, None);
}

#[test]
fn modifier_class_then_value_fills_field() {
    let mut log: Vec<String> = Vec::new();
    let recs = extract(
        r#"<carry_item><modifier class="speed" value="0.5"/><modifier class="detectability" value="0.3"/><modifier class="night_detectability" value="0.2"/><modifier class="hit_success_probability" value="0.1"/></carry_item>"#,
        "m.carry_item",
        &mut log,
    );
    assert_eq!(recs[0].modifier_speed.as_deref(), Some("0.5"));
    assert_eq!(recs[0].modifier_detectability.as_deref(), Some("0.3"));
    assert_eq!(recs[0].modifier_night_detectability.as_deref(), Some("0.2"));
    assert_eq!(recs[0].modifier_hit_success_probability.as_deref(), Some("0.1"));
}

#[test]
fn modifier_class_does_not_carry_across_tags() {
    let mut log: Vec<String> = Vec::new();
    let recs = extract(
        r#"<carry_item><modifier class="speed"/><modifier value="0.9"/></carry_item>"#,
        "m.carry_item",
        &mut log,
    );
    assert_eq!(recs[0].modifier_speed, None);
}

#[test]
fn modifier_unknown_class_ignored_and_not_logged() {
    let mut log: Vec<String> = Vec::new();
    let recs = extract(
        r#"<carry_item><modifier class="weird" value="1"/></carry_item>"#,
        "m.carry_item",
        &mut log,
    );
    assert_eq!(recs[0].modifier_speed, None);
    assert!(log.is_empty());
}

#[test]
fn unknown_item_attribute_is_logged() {
    let mut log: Vec<String> = Vec::new();
    let recs = extract(
        r#"<carry_item foo="bar"></carry_item>"#,
        "u.carry_item",
        &mut log,
    );
    assert_eq!(recs.len(), 1);
    assert_eq!(log, vec!["carry_item: foo/bar".to_string()]);
}

#[test]
fn log_accumulates_across_files() {
    let mut log: Vec<String> = Vec::new();
    let _ = extract(r#"<carry_item foo="bar"></carry_item>"#, "one", &mut log);
    let _ = extract(r#"<carry_item baz="qux"></carry_item>"#, "two", &mut log);
    assert_eq!(
        log,
        vec!["carry_item: foo/bar".to_string(), "carry_item: baz/qux".to_string()]
    );
}

#[test]
fn placeholder_tags_do_nothing_and_log_nothing() {
    let mut log: Vec<String> = Vec::new();
    let recs = extract(
        r#"<carry_item><commonness value="1"/><inventory encumbrance="2"/><whatever a="b"/></carry_item>"#,
        "p.carry_item",
        &mut log,
    );
    assert_eq!(recs.len(), 1);
    assert!(log.is_empty());
    assert_eq!(recs[0].hud_icon, None);
}

#[test]
fn text_content_is_consumed() {
    let mut log: Vec<String> = Vec::new();
    let recs = extract(
        r#"<carry_item name="a">some text</carry_item>"#,
        "t.carry_item",
        &mut log,
    );
    assert_eq!(recs.len(), 1);
    assert_eq!(recs[0].name.as_deref(), Some("a"));
}

#[test]
fn attribute_values_are_unescaped() {
    let mut log: Vec<String> = Vec::new();
    let recs = extract(
        r#"<carry_item name="a&amp;b" key="&lt;k&gt;"></carry_item>"#,
        "e.carry_item",
        &mut log,
    );
    assert_eq!(recs[0].name.as_deref(), Some("a&b"));
    assert_eq!(recs[0].key.as_deref(), Some("<k>"));
}

#[test]
fn malformed_markup_is_rejected() {
    assert_eq!(tokenize("<a><b></a>").unwrap_err(), ExtractError::MalformedMarkup);
    let mut log: Vec<String> = Vec::new();
    assert_eq!(
        extract_records("<a><b></a>", "bad", &mut log).unwrap_err(),
        ExtractError::MalformedMarkup
    );
}

#[test]
fn extract_records_runs_whole_file() {
    let mut log: Vec<String> = Vec::new();
    let recs = extract_records(
        r#"<carry_item name="armor_a" slot="1"><hud_icon filename="a.png"/></carry_item>"#,
        "r.carry_item",
        &mut log,
    )
    .unwrap();
    assert_eq!(recs.len(), 1);
    assert_eq!(recs[0].hud_icon.as_deref(), Some("a.png"));
}
