use vstd::prelude::*;
use crate::events::{attrs_view, events_view, EventModel, MarkupEvent};
use crate::model::{
    records_view, spec_fresh_output, spec_set_if_absent, strings_view, view_opt, fresh_output,
    set_if_absent, ExtractError, Output, OutputModel,
};
use crate::numbers::{parse_i8, spec_parse_i8, is_float_text, spec_float_text_ok};
use crate::textutil::{log_entry, spec_log_entry, str_eq};

verus! {

// ---------------------------------------------------------------------------
// Item-level attributes of an opening item tag
// ---------------------------------------------------------------------------

/// What one attribute of an item tag does to the record being built and to
/// the diagnostic log: each recognized attribute fills its field only when
/// the field is still unset; a numeric attribute whose text does not parse
/// fails; an unrecognized attribute is logged.
pub open spec fn spec_carry_item_attr(
    m: OutputModel,
    log: Seq<Seq<char>>,
    key: Seq<char>,
    value: Seq<char>,
) -> Option<(OutputModel, Seq<Seq<char>>)> {
    if key == "name"@ {
        Some((OutputModel { name: spec_set_if_absent(m.name, value), ..m }, log))
    } else if key == "key"@ {
        Some((OutputModel { key: spec_set_if_absent(m.key, value), ..m }, log))
    } else if key == "slot"@ {
        match spec_parse_i8(value) {
            Some(v) => Some(
                (
                    OutputModel {
                        slot: if m.slot is Some {
                            m.slot
                        } else {
                            Some(v)
                        },
                        ..m
                    },
                    log,
                ),
            ),
            None => None,
        }
    } else if key == "drop_count_factor_on_death"@ {
        if spec_float_text_ok(value) {
            Some(
                (
                    OutputModel {
                        drop_count_factor_on_death: spec_set_if_absent(
                            m.drop_count_factor_on_death,
                            value,
                        ),
                        ..m
                    },
                    log,
                ),
            )
        } else {
            None
        }
    } else if key == "time_to_live_out_in_the_open"@ {
        if spec_float_text_ok(value) {
            Some(
                (
                    OutputModel {
                        time_to_live_out_in_the_open: spec_set_if_absent(
                            m.time_to_live_out_in_the_open,
                            value,
                        ),
                        ..m
                    },
                    log,
                ),
            )
        } else {
            None
        }
    } else if key == "player_death_drop_owner_lock_time"@ {
        if spec_float_text_ok(value) {
            Some(
                (
                    OutputModel {
                        player_death_drop_owner_lock_time: spec_set_if_absent(
                            m.player_death_drop_owner_lock_time,
                            value,
                        ),
                        ..m
                    },
                    log,
                ),
            )
        } else {
            None
        }
    } else if key == "transform_on_consume"@ {
        Some(
            (
                OutputModel { transform_on_consume: spec_set_if_absent(m.transform_on_consume, value), ..m },
                log,
            ),
        )
    } else {
        Some((m, log.push(spec_log_entry(key, value))))
    }
}

/// The attributes of one item tag, applied in document order; `None` where a
/// numeric attribute fails to parse.
pub open spec fn spec_carry_item(
    m: OutputModel,
    log: Seq<Seq<char>>,
    attrs: Seq<(Seq<char>, Seq<char>)>,
) -> Option<(OutputModel, Seq<Seq<char>>)>
    decreases attrs.len(),
{
    if attrs.len() == 0 {
        Some((m, log))
    } else {
        match spec_carry_item_attr(m, log, attrs[0].0, attrs[0].1) {
            Some(p) => spec_carry_item(p.0, p.1, attrs.skip(1)),
            None => None,
        }
    }
}

/// Applies the attributes of one item tag to the record being built.
#[verifier::loop_isolation(false)]
#[verifier::rlimit(50)]
pub fn parse_carry_item(
    attrs: &Vec<(String, String)>,
    output_struct: &mut Output,
    extra_msg_list: &mut Vec<String>,
) -> (r: Result<(), ExtractError>)
    ensures
        (r is Ok) == (spec_carry_item(
            old(output_struct)@,
            strings_view(old(extra_msg_list)@),
            attrs_view(attrs@),
        ) is Some),
        r is Ok ==> Some(((*final(output_struct))@, strings_view(final(extra_msg_list)@)))
            == spec_carry_item(
            old(output_struct)@,
            strings_view(old(extra_msg_list)@),
            attrs_view(attrs@),
        ),
        r matches Err(e) ==> e == ExtractError::AttributeParse,
{
    let ghost a_full = attrs_view(attrs@);
    let ghost m0 = old(output_struct)@;
    let ghost l0 = strings_view(old(extra_msg_list)@);
    proof {
        assert(a_full.skip(0) =~= a_full);
    }
    let n = attrs.len();
    let mut i: usize = 0;
    while i < n
        invariant
            i <= n,
            n == attrs.len(),
            spec_carry_item(m0, l0, a_full) == spec_carry_item(
                (*output_struct)@,
                strings_view((*extra_msg_list)@),
                a_full.skip(i as int),
            ),
        decreases n - i,
    {
        let ghost m_i = (*output_struct)@;
        let ghost l_i = strings_view((*extra_msg_list)@);
        let ghost rest = a_full.skip(i as int);
        proof {
            assert(rest[0] == a_full[i as int]);
            assert(rest.skip(1) =~= a_full.skip(i as int + 1));
        }
        let pair = &attrs[i];
        if str_eq(pair.0.as_str(), "name") {
            set_if_absent(&mut output_struct.name, pair.1.clone());
        } else if str_eq(pair.0.as_str(), "key") {
            set_if_absent(&mut output_struct.key, pair.1.clone());
        } else if str_eq(pair.0.as_str(), "slot") {
            match parse_i8(pair.1.as_str()) {
                Some(v) => {
                    if output_struct.slot.is_none() {
                        output_struct.slot = Some(v);
                    }
                },
                None => {
                    return Err(ExtractError::AttributeParse);
                },
            }
        } else if str_eq(pair.0.as_str(), "drop_count_factor_on_death") {
            if is_float_text(pair.1.as_str()) {
                set_if_absent(&mut output_struct.drop_count_factor_on_death, pair.1.clone());
            } else {
                return Err(ExtractError::AttributeParse);
            }
        } else if str_eq(pair.0.as_str(), "time_to_live_out_in_the_open") {
            if is_float_text(pair.1.as_str()) {
                set_if_absent(&mut output_struct.time_to_live_out_in_the_open, pair.1.clone());
            } else {
                return Err(ExtractError::AttributeParse);
            }
        } else if str_eq(pair.0.as_str(), "player_death_drop_owner_lock_time") {
            if is_float_text(pair.1.as_str()) {
                set_if_absent(&mut output_struct.player_death_drop_owner_lock_time, pair.1.clone());
            } else {
                return Err(ExtractError::AttributeParse);
            }
        } else if str_eq(pair.0.as_str(), "transform_on_consume") {
            set_if_absent(&mut output_struct.transform_on_consume, pair.1.clone());
        } else {
            let msg = log_entry(pair.0.as_str(), pair.1.as_str());
            extra_msg_list.push(msg);
            proof {
                assert(strings_view((*extra_msg_list)@) =~= l_i.push(
                    spec_log_entry(rest[0].0, rest[0].1),
                ));
            }
        }
        proof {
            assert(spec_carry_item_attr(m_i, l_i, rest[0].0, rest[0].1) == Some(
                (((*output_struct)@, strings_view((*extra_msg_list)@))),
            ));
        }
        i += 1;
    }
    proof {
        assert(a_full.skip(n as int) =~= Seq::<(Seq<char>, Seq<char>)>::empty());
    }
    Ok(())
}

// ---------------------------------------------------------------------------
// Self-closing icon tags
// ---------------------------------------------------------------------------

/// What an icon tag does to the record: its `filename` attribute fills the
/// icon field when the field is still unset; every other attribute is
/// ignored.
pub open spec fn spec_hud_icon(m: OutputModel, attrs: Seq<(Seq<char>, Seq<char>)>) -> OutputModel
    decreases attrs.len(),
{
    if attrs.len() == 0 {
        m
    } else {
        let m2 = if attrs[0].0 == "filename"@ {
            OutputModel { hud_icon: spec_set_if_absent(m.hud_icon, attrs[0].1), ..m }
        } else {
            m
        };
        spec_hud_icon(m2, attrs.skip(1))
    }
}

/// Applies the attributes of one icon tag to the record being built.
#[verifier::loop_isolation(false)]
pub fn parse_hud_icon(attrs: &Vec<(String, String)>, output_struct: &mut Output)
    ensures
        (*final(output_struct))@ == spec_hud_icon((*old(output_struct))@, attrs_view(attrs@)),
{
    let ghost a_full = attrs_view(attrs@);
    let ghost m0 = (*old(output_struct))@;
    proof {
        assert(a_full.skip(0) =~= a_full);
    }
    let n = attrs.len();
    let mut i: usize = 0;
    while i < n
        invariant
            i <= n,
            n == attrs.len(),
            spec_hud_icon(m0, a_full) == spec_hud_icon((*output_struct)@, a_full.skip(i as int)),
        decreases n - i,
    {
        let ghost rest = a_full.skip(i as int);
        proof {
            assert(rest[0] == a_full[i as int]);
            assert(rest.skip(1) =~= a_full.skip(i as int + 1));
        }
        let pair = &attrs[i];
        if str_eq(pair.0.as_str(), "filename") {
            set_if_absent(&mut output_struct.hud_icon, pair.1.clone());
        }
        i += 1;
    }
    proof {
        assert(a_full.skip(n as int) =~= Seq::<(Seq<char>, Seq<char>)>::empty());
    }
}

// ---------------------------------------------------------------------------
// Self-closing modifier tags: the stateful class/value rule
// ---------------------------------------------------------------------------

/// Which field a modifier value goes to, selected by the class seen last;
/// an unknown class has no effect.
pub open spec fn spec_modifier_value(m: OutputModel, class: Seq<char>, value: Seq<char>) -> OutputModel {
    if class == "speed"@ {
        OutputModel { modifier_speed: spec_set_if_absent(m.modifier_speed, value), ..m }
    } else if class == "detectability"@ {
        OutputModel { modifier_detectability: spec_set_if_absent(m.modifier_detectability, value), ..m }
    } else if class == "night_detectability"@ {
        OutputModel {
            modifier_night_detectability: spec_set_if_absent(m.modifier_night_detectability, value),
            ..m
        }
    } else if class == "hit_success_probability"@ {
        OutputModel {
            modifier_hit_success_probability: spec_set_if_absent(
                m.modifier_hit_success_probability,
                value,
            ),
            ..m
        }
    } else {
        m
    }
}

/// The attributes of one modifier tag, in document order: a `class`
/// attribute selects the destination of every following `value` attribute; a
/// `value` seen before any `class` has no effect. The carried class starts
/// afresh for each modifier tag.
pub open spec fn spec_modifier(
    m: OutputModel,
    prev_class: Option<Seq<char>>,
    attrs: Seq<(Seq<char>, Seq<char>)>,
) -> OutputModel
    decreases attrs.len(),
{
    if attrs.len() == 0 {
        m
    } else {
        if attrs[0].0 == "class"@ {
            spec_modifier(m, Some(attrs[0].1), attrs.skip(1))
        } else if attrs[0].0 == "value"@ {
            match prev_class {
                Some(c) => spec_modifier(spec_modifier_value(m, c, attrs[0].1), prev_class, attrs.skip(1)),
                None => spec_modifier(m, None, attrs.skip(1)),
            }
        } else {
            spec_modifier(m, prev_class, attrs.skip(1))
        }
    }
}

/// Applies the attributes of one modifier tag to the record being built.
#[verifier::loop_isolation(false)]
pub fn parse_modifier(attrs: &Vec<(String, String)>, output_struct: &mut Output)
    ensures
        (*final(output_struct))@ == spec_modifier((*old(output_struct))@, None, attrs_view(attrs@)),
{
    let ghost a_full = attrs_view(attrs@);
    let ghost m0 = (*old(output_struct))@;
    proof {
        assert(a_full.skip(0) =~= a_full);
    }
    let mut prev_class: Option<String> = None;
    let n = attrs.len();
    let mut i: usize = 0;
    while i < n
        invariant
            i <= n,
            n == attrs.len(),
            spec_modifier(m0, None, a_full) == spec_modifier(
                (*output_struct)@,
                view_opt(prev_class),
                a_full.skip(i as int),
            ),
        decreases n - i,
    {
        let ghost rest = a_full.skip(i as int);
        proof {
            assert(rest[0] == a_full[i as int]);
            assert(rest.skip(1) =~= a_full.skip(i as int + 1));
        }
        let pair = &attrs[i];
        if str_eq(pair.0.as_str(), "class") {
            prev_class = Some(pair.1.clone());
        } else if str_eq(pair.0.as_str(), "value") {
            match &prev_class {
                Some(class) => {
                    if str_eq(class.as_str(), "speed") {
                        set_if_absent(&mut output_struct.modifier_speed, pair.1.clone());
                    } else if str_eq(class.as_str(), "detectability") {
                        set_if_absent(&mut output_struct.modifier_detectability, pair.1.clone());
                    } else if str_eq(class.as_str(), "night_detectability") {
                        set_if_absent(&mut output_struct.modifier_night_detectability, pair.1.clone());
                    } else if str_eq(class.as_str(), "hit_success_probability") {
                        set_if_absent(
                            &mut output_struct.modifier_hit_success_probability,
                            pair.1.clone(),
                        );
                    }
                },
                None => {},
            }
        }
        i += 1;
    }
    proof {
        assert(a_full.skip(n as int) =~= Seq::<(Seq<char>, Seq<char>)>::empty());
    }
}

// ---------------------------------------------------------------------------
// Tag dispatch
// ---------------------------------------------------------------------------

/// What an opening tag does: an item tag applies its attributes to the
/// record; every other opening tag is a no-op for field population.
pub open spec fn spec_normal_event(
    m: OutputModel,
    log: Seq<Seq<char>>,
    name: Seq<char>,
    attrs: Seq<(Seq<char>, Seq<char>)>,
) -> Option<(OutputModel, Seq<Seq<char>>)> {
    if name == "carry_item"@ {
        spec_carry_item(m, log, attrs)
    } else {
        Some((m, log))
    }
}

/// Dispatches one opening tag.
pub fn parse_normal_event(
    name: &str,
    attrs: &Vec<(String, String)>,
    output_struct: &mut Output,
    extra_msg_list: &mut Vec<String>,
) -> (r: Result<(), ExtractError>)
    ensures
        (r is Ok) == (spec_normal_event(
            old(output_struct)@,
            strings_view(old(extra_msg_list)@),
            name@,
            attrs_view(attrs@),
        ) is Some),
        r is Ok ==> Some(((*final(output_struct))@, strings_view(final(extra_msg_list)@)))
            == spec_normal_event(
            old(output_struct)@,
            strings_view(old(extra_msg_list)@),
            name@,
            attrs_view(attrs@),
        ),
        r matches Err(e) ==> e == ExtractError::AttributeParse,
{
    if str_eq(name, "carry_item") {
        parse_carry_item(attrs, output_struct, extra_msg_list)
    } else {
        Ok(())
    }
}

/// What a self-closing tag does: icon and modifier tags apply their
/// attributes; the placeholder tags and every unrecognized tag are no-ops,
/// and none of them is logged.
pub open spec fn spec_empty_event(
    m: OutputModel,
    name: Seq<char>,
    attrs: Seq<(Seq<char>, Seq<char>)>,
) -> OutputModel {
    if name == "hud_icon"@ {
        spec_hud_icon(m, attrs)
    } else if name == "modifier"@ {
        spec_modifier(m, None, attrs)
    } else {
        m
    }
}

/// Dispatches one self-closing tag. It never fails and never logs.
pub fn parse_empty_event(
    name: &str,
    attrs: &Vec<(String, String)>,
    output_struct: &mut Output,
    extra_msg_list: &mut Vec<String>,
) -> (r: Result<(), ExtractError>)
    ensures
        r is Ok,
        (*final(output_struct))@ == spec_empty_event(
            old(output_struct)@,
            name@,
            attrs_view(attrs@),
        ),
        *final(extra_msg_list) == *old(extra_msg_list),
{
    if str_eq(name, "hud_icon") {
        parse_hud_icon(attrs, output_struct);
    } else if str_eq(name, "commonness") {
        // recognized placeholder: deliberately unhandled
        proof {
            reveal_strlit("commonness");
            reveal_strlit("modifier");
            assert("commonness"@.len() == 10);
            assert("modifier"@.len() == 8);
            assert(name@ != "modifier"@);
        }
    } else if str_eq(name, "inventory") {
        // recognized placeholder: deliberately unhandled
        proof {
            reveal_strlit("inventory");
            reveal_strlit("modifier");
            assert("inventory"@.len() == 9);
            assert("modifier"@.len() == 8);
            assert(name@ != "modifier"@);
        }
    } else if str_eq(name, "modifier") {
        parse_modifier(attrs, output_struct);
    } else {
        // unrecognized self-closing tags are no-ops and are not logged
    }
    Ok(())
}

// ---------------------------------------------------------------------------
// Whole-file extraction
// ---------------------------------------------------------------------------

/// What one markup token does to the extraction state: the records already
/// finalized, the record being built, and the diagnostic log. Closing an
/// item tag finalizes the record and starts a fresh one for the same source
/// file; text and all other constructs are consumed without effect.
pub open spec fn spec_step(
    recs: Seq<OutputModel>,
    cur: OutputModel,
    log: Seq<Seq<char>>,
    ev: EventModel,
    src: Seq<char>,
) -> Option<(Seq<OutputModel>, OutputModel, Seq<Seq<char>>)> {
    match ev {
        EventModel::Open { name, attrs } => match spec_normal_event(cur, log, name, attrs) {
            Some(p) => Some((recs, p.0, p.1)),
            None => None,
        },
        EventModel::SelfClosed { name, attrs } => Some((recs, spec_empty_event(cur, name, attrs), log)),
        EventModel::Close { name } => if name == "carry_item"@ {
            Some((recs.push(cur), spec_fresh_output(src), log))
        } else {
            Some((recs, cur, log))
        },
        EventModel::Text => Some((recs, cur, log)),
        EventModel::Other => Some((recs, cur, log)),
    }
}

/// The extraction state after a sequence of tokens, or `None` where some
/// numeric attribute failed to parse.
pub open spec fn spec_extract_events(
    recs: Seq<OutputModel>,
    cur: OutputModel,
    log: Seq<Seq<char>>,
    evs: Seq<EventModel>,
    src: Seq<char>,
) -> Option<(Seq<OutputModel>, OutputModel, Seq<Seq<char>>)>
    decreases evs.len(),
{
    if evs.len() == 0 {
        Some((recs, cur, log))
    } else {
        match spec_step(recs, cur, log, evs[0], src) {
            Some(st) => spec_extract_events(st.0, st.1, st.2, evs.skip(1), src),
            None => None,
        }
    }
}

/// Extracting one file: the finalized records in traversal order, and the
/// diagnostic log grown from what the caller already accumulated.
pub open spec fn spec_extract_file(
    evs: Seq<EventModel>,
    log: Seq<Seq<char>>,
    src: Seq<char>,
) -> Option<(Seq<OutputModel>, Seq<Seq<char>>)> {
    match spec_extract_events(Seq::empty(), spec_fresh_output(src), log, evs, src) {
        Some(st) => Some((st.0, st.2)),
        None => None,
    }
}

/// Builds the records of one file from its token stream: exactly the records
/// that `spec_extract_file` describes, or the numeric-attribute error where
/// it yields nothing.
#[verifier::loop_isolation(false)]
pub fn extract_from_events(
    events: &Vec<MarkupEvent>,
    source_file: &str,
    extra_msg_list: &mut Vec<String>,
) -> (r: Result<Vec<Output>, ExtractError>)
    ensures
        (r is Ok) == (spec_extract_file(
            events_view(events@),
            strings_view(old(extra_msg_list)@),
            source_file@,
        ) is Some),
        r matches Ok(v) ==> Some((records_view(v@), strings_view(final(extra_msg_list)@)))
            == spec_extract_file(
            events_view(events@),
            strings_view(old(extra_msg_list)@),
            source_file@,
        ),
        r matches Err(e) ==> e == ExtractError::AttributeParse,
{
    let ghost e_full = events_view(events@);
    let ghost l0 = strings_view(old(extra_msg_list)@);
    let mut records: Vec<Output> = Vec::new();
    let mut current = fresh_output(source_file);
    proof {
        assert(e_full.skip(0) =~= e_full);
        assert(records_view(records@) =~= Seq::<OutputModel>::empty());
    }
    let n = events.len();
    let mut i: usize = 0;
    while i < n
        invariant
            i <= n,
            n == events.len(),
            spec_extract_events(Seq::empty(), spec_fresh_output(source_file@), l0, e_full, source_file@)
                == spec_extract_events(
                records_view(records@),
                current@,
                strings_view((*extra_msg_list)@),
                e_full.skip(i as int),
                source_file@,
            ),
        decreases n - i,
    {
        let ghost rest = e_full.skip(i as int);
        proof {
            assert(rest[0] == e_full[i as int]);
            assert(rest.skip(1) =~= e_full.skip(i as int + 1));
        }
        let ghost recs_i = records_view(records@);
        match &events[i] {
            MarkupEvent::Open { name, attrs } => {
                match parse_normal_event(name.as_str(), attrs, &mut current, extra_msg_list) {
                    Ok(_) => {},
                    Err(e) => {
                        return Err(e);
                    },
                }
            },
            MarkupEvent::SelfClosed { name, attrs } => {
                match parse_empty_event(name.as_str(), attrs, &mut current, extra_msg_list) {
                    Ok(_) => {},
                    Err(e) => {
                        return Err(e);
                    },
                }
            },
            MarkupEvent::Close { name } => {
                if str_eq(name.as_str(), "carry_item") {
                    records.push(current);
                    current = fresh_output(source_file);
                    proof {
                        assert(records_view(records@) =~= recs_i.push(records@.last()@));
                    }
                }
            },
            MarkupEvent::Text => {},
            MarkupEvent::Other => {},
        }
        i += 1;
    }
    proof {
        assert(e_full.skip(n as int) =~= Seq::<EventModel>::empty());
    }
    Ok(records)
}

/// Extracting one markup file from its text: the records of the text's
/// token stream, or nothing where the text is malformed markup or some
/// numeric attribute fails to parse.
pub open spec fn spec_extract_text(
    text: Seq<char>,
    log: Seq<Seq<char>>,
    src: Seq<char>,
) -> Option<(Seq<OutputModel>, Seq<Seq<char>>)> {
    match crate::xml::spec_tokens(text) {
        Some(evs) => spec_extract_file(events_view(evs), log, src),
        None => None,
    }
}

/// Extracts the records of one markup file: tokenizes the text through the
/// outside tokenizer and builds the records from the token stream. Succeeds
/// exactly where `spec_extract_text` yields records, and then returns
/// exactly those; the error says which stage failed.
pub fn extract_records(text: &str, source_file: &str, extra_msg_list: &mut Vec<String>) -> (r:
    Result<Vec<Output>, ExtractError>)
    ensures
        (r is Ok) == (spec_extract_text(
            text@,
            strings_view(old(extra_msg_list)@),
            source_file@,
        ) is Some),
        r matches Ok(v) ==> Some((records_view(v@), strings_view(final(extra_msg_list)@)))
            == spec_extract_text(text@, strings_view(old(extra_msg_list)@), source_file@),
        r matches Err(e) ==> e == (if crate::xml::spec_tokens(text@) is None {
            ExtractError::MalformedMarkup
        } else {
            ExtractError::AttributeParse
        }),
{
    match crate::xml::tokenize(text) {
        Ok(events) => extract_from_events(&events, source_file, extra_msg_list),
        Err(e) => Err(e),
    }
}

} // verus!
