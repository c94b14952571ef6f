use vstd::prelude::*;
use crate::events::{events_view, EventModel, MarkupEvent};
use crate::model::{records_view, strings_view, view_opt, ExtractError, Output, OutputModel};
use crate::numbers::{i8_to_string, spec_i8_text};
use crate::parse::{extract_from_events, spec_extract_file};
use crate::translation::TranslationTable;

verus! {

// ---------------------------------------------------------------------------
// Category filter and translation enrichment
// ---------------------------------------------------------------------------

/// The category that survives the filter: an armor record.
pub const ARMOR_SLOT: i8 = 1;

/// Enrichment of one record: where the record carries a name, its localized
/// display name is looked up in the table, and an absent key leaves the
/// localized name unset; a record without a name never performs a lookup.
pub open spec fn spec_enrich(m: OutputModel, t: Map<Seq<char>, Seq<char>>) -> OutputModel {
    match m.name {
        Some(nm) => OutputModel {
            cn_name: if t.contains_key(nm) {
                Some(t[nm])
            } else {
                None
            },
            ..m
        },
        None => m,
    }
}

/// The records that survive the category filter, each enriched, in their
/// original order: exactly those whose slot equals the armor category.
pub open spec fn spec_filter_enrich(rs: Seq<OutputModel>, t: Map<Seq<char>, Seq<char>>) -> Seq<
    OutputModel,
>
    decreases rs.len(),
{
    if rs.len() == 0 {
        Seq::empty()
    } else {
        let rest = spec_filter_enrich(rs.drop_last(), t);
        if rs.last().slot == Some(ARMOR_SLOT) {
            rest.push(spec_enrich(rs.last(), t))
        } else {
            rest
        }
    }
}

/// Keeps only the records of the armor category and fills in each kept
/// record's localized name from the table.
#[verifier::loop_isolation(false)]
pub fn filter_and_enrich(records: Vec<Output>, table: &TranslationTable) -> (r: Vec<Output>)
    ensures
        records_view(r@) == spec_filter_enrich(records_view(records@), table@),
{
    let ghost orig = records@;
    let mut remaining = records;
    let mut out: Vec<Output> = Vec::new();
    proof {
        assert(orig.take(0) =~= Seq::<Output>::empty());
        assert(records_view(out@) =~= Seq::<OutputModel>::empty());
        assert(remaining@ =~= orig.skip(0));
    }
    while remaining.len() > 0
        invariant
            remaining@.len() <= orig.len(),
            remaining@ == orig.skip(orig.len() - remaining@.len()),
            records_view(out@) == spec_filter_enrich(
                records_view(orig.take(orig.len() - remaining@.len())),
                table@,
            ),
        decreases remaining.len(),
    {
        let ghost i = orig.len() - remaining@.len();
        let ghost out0 = records_view(out@);
        proof {
            assert(remaining@[0] == orig[i]);
            assert(orig.take(i + 1).drop_last() =~= orig.take(i));
            assert(orig.take(i + 1).last() == orig[i]);
            assert(records_view(orig.take(i + 1)).drop_last() =~= records_view(orig.take(i)));
            assert(records_view(orig.take(i + 1)).last() == orig[i]@);
        }
        let mut rec = remaining.remove(0);
        let keep = if let Some(v) = rec.slot {
            v == ARMOR_SLOT
        } else {
            false
        };
        if keep {
            match &rec.name {
                Some(nm) => {
                    let looked = table.lookup(nm.as_str());
                    rec.cn_name = looked;
                },
                None => {},
            }
            proof {
                assert(rec@ == spec_enrich(orig[i]@, table@));
            }
            out.push(rec);
            proof {
                assert(records_view(out@) =~= out0.push(spec_enrich(orig[i]@, table@)));
            }
        }
        proof {
            assert(remaining@ =~= orig.skip(orig.len() - remaining@.len()));
        }
    }
    proof {
        assert(orig.take(orig.len() as int) =~= orig);
    }
    out
}

// ---------------------------------------------------------------------------
// Tabular rows
// ---------------------------------------------------------------------------

/// A missing optional field serializes as the empty column.
pub open spec fn opt_col(f: Option<Seq<char>>) -> Seq<char> {
    match f {
        Some(s) => s,
        None => Seq::empty(),
    }
}

/// The slot column: the category as decimal text, or empty where unset.
pub open spec fn slot_col(s: Option<i8>) -> Seq<char> {
    match s {
        Some(v) => spec_i8_text(v as int),
        None => Seq::empty(),
    }
}

/// One output row, in the fixed column order: source file name, key, name,
/// transform on consume, slot, the three numeric factors, the four modifier
/// fields, the icon, and the localized name.
pub open spec fn spec_row(m: OutputModel) -> Seq<Seq<char>> {
    seq![
        m.source_file_name,
        opt_col(m.key),
        opt_col(m.name),
        opt_col(m.transform_on_consume),
        slot_col(m.slot),
        opt_col(m.drop_count_factor_on_death),
        opt_col(m.time_to_live_out_in_the_open),
        opt_col(m.player_death_drop_owner_lock_time),
        opt_col(m.modifier_hit_success_probability),
        opt_col(m.modifier_detectability),
        opt_col(m.modifier_night_detectability),
        opt_col(m.modifier_speed),
        opt_col(m.hud_icon),
        opt_col(m.cn_name),
    ]
}

/// The rows of a record sequence, in order.
pub open spec fn spec_rows(rs: Seq<OutputModel>) -> Seq<Seq<Seq<char>>> {
    rs.map_values(|m: OutputModel| spec_row(m))
}

/// The view of a row list.
pub open spec fn rows_view(rows: Seq<Vec<String>>) -> Seq<Seq<Seq<char>>> {
    rows.map_values(|v: Vec<String>| strings_view(v@))
}

/// An optional text field as its column.
fn opt_col_text(f: &Option<String>) -> (r: String)
    ensures
        r@ == opt_col(view_opt(*f)),
{
    match f {
        Some(s) => s.clone(),
        None => String::new(),
    }
}

/// The slot field as its column.
fn slot_col_text(s: &Option<i8>) -> (r: String)
    ensures
        r@ == slot_col(*s),
{
    match s {
        Some(v) => i8_to_string(*v),
        None => String::new(),
    }
}

/// One record as its output row.
pub fn to_row(o: &Output) -> (r: Vec<String>)
    ensures
        strings_view(r@) == spec_row(o@),
        r@.len() == 14,
{
    let mut row: Vec<String> = Vec::new();
    row.push(o.source_file_name.clone());
    row.push(opt_col_text(&o.key));
    row.push(opt_col_text(&o.name));
    row.push(opt_col_text(&o.transform_on_consume));
    row.push(slot_col_text(&o.slot));
    row.push(opt_col_text(&o.drop_count_factor_on_death));
    row.push(opt_col_text(&o.time_to_live_out_in_the_open));
    row.push(opt_col_text(&o.player_death_drop_owner_lock_time));
    row.push(opt_col_text(&o.modifier_hit_success_probability));
    row.push(opt_col_text(&o.modifier_detectability));
    row.push(opt_col_text(&o.modifier_night_detectability));
    row.push(opt_col_text(&o.modifier_speed));
    row.push(opt_col_text(&o.hud_icon));
    row.push(opt_col_text(&o.cn_name));
    proof {
        assert(strings_view(row@) =~= spec_row(o@));
    }
    row
}

/// The rows of a record list, in order.
#[verifier::loop_isolation(false)]
pub fn rows_of(records: &Vec<Output>) -> (r: Vec<Vec<String>>)
    ensures
        rows_view(r@) == spec_rows(records_view(records@)),
{
    let mut out: Vec<Vec<String>> = Vec::new();
    let n = records.len();
    let mut i: usize = 0;
    while i < n
        invariant
            i <= n,
            n == records.len(),
            out@.len() == i,
            forall|j: int|
                0 <= j < i ==> rows_view(out@)[j] == spec_row(records_view(records@)[j]),
        decreases n - i,
    {
        let ghost out0 = out@;
        let row = to_row(&records[i]);
        out.push(row);
        proof {
            assert forall|j: int| 0 <= j < i + 1 implies rows_view(out@)[j] == spec_row(
                records_view(records@)[j],
            ) by {
                assert(rows_view(out@)[j] == strings_view(out@[j]@));
                if j < i {
                    assert(out@[j] == out0[j]);
                    assert(rows_view(out0)[j] == strings_view(out0[j]@));
                } else {
                    assert(records_view(records@)[j] == records@[j]@);
                }
            }
        }
        i += 1;
    }
    proof {
        assert(rows_view(out@) =~= spec_rows(records_view(records@)));
    }
    out
}

// ---------------------------------------------------------------------------
// The per-file pipeline: extract, filter, enrich, lay out rows
// ---------------------------------------------------------------------------

/// The whole per-file computation: the rows of the enriched armor records
/// that the token stream yields, and the diagnostic log grown from what the
/// caller already accumulated; `None` where extraction fails on a numeric
/// attribute.
pub open spec fn spec_pipeline(
    evs: Seq<EventModel>,
    log: Seq<Seq<char>>,
    src: Seq<char>,
    t: Map<Seq<char>, Seq<char>>,
) -> Option<(Seq<Seq<Seq<char>>>, Seq<Seq<char>>)> {
    match spec_extract_file(evs, log, src) {
        Some(p) => Some((spec_rows(spec_filter_enrich(p.0, t)), p.1)),
        None => None,
    }
}

/// Runs the per-file pipeline on one token stream: extraction, the category
/// filter, translation enrichment, and row layout.
pub fn process_events(
    events: &Vec<MarkupEvent>,
    source_file: &str,
    table: &TranslationTable,
    extra_msg_list: &mut Vec<String>,
) -> (r: Result<Vec<Vec<String>>, ExtractError>)
    ensures
        (r is Ok) == (spec_pipeline(
            events_view(events@),
            strings_view(old(extra_msg_list)@),
            source_file@,
            table@,
        ) is Some),
        r matches Ok(rows) ==> Some((rows_view(rows@), strings_view(final(extra_msg_list)@)))
            == spec_pipeline(
            events_view(events@),
            strings_view(old(extra_msg_list)@),
            source_file@,
            table@,
        ),
        r matches Err(e) ==> e == ExtractError::AttributeParse,
{
    match extract_from_events(events, source_file, extra_msg_list) {
        Ok(recs) => {
            let kept = filter_and_enrich(recs, table);
            Ok(rows_of(&kept))
        },
        Err(e) => Err(e),
    }
}

} // verus!
