use vstd::prelude::*;
use crate::model::OutputModel;
use crate::events::EventModel;
use crate::parse::{spec_carry_item, spec_carry_item_attr, spec_hud_icon, spec_modifier};
use crate::pipeline::{spec_enrich, spec_filter_enrich, spec_pipeline, ARMOR_SLOT};

verus! {

/// Every field of `m1` that already holds a value keeps exactly that value
/// in `m2`, and the source file name is kept as well.
pub open spec fn fields_preserved(m1: OutputModel, m2: OutputModel) -> bool {
    &&& m2.source_file_name == m1.source_file_name
    &&& (m1.key is Some ==> m2.key == m1.key)
    &&& (m1.name is Some ==> m2.name == m1.name)
    &&& (m1.transform_on_consume is Some ==> m2.transform_on_consume == m1.transform_on_consume)
    &&& (m1.slot is Some ==> m2.slot == m1.slot)
    &&& (m1.drop_count_factor_on_death is Some ==> m2.drop_count_factor_on_death
        == m1.drop_count_factor_on_death)
    &&& (m1.time_to_live_out_in_the_open is Some ==> m2.time_to_live_out_in_the_open
        == m1.time_to_live_out_in_the_open)
    &&& (m1.player_death_drop_owner_lock_time is Some ==> m2.player_death_drop_owner_lock_time
        == m1.player_death_drop_owner_lock_time)
    &&& (m1.modifier_hit_success_probability is Some ==> m2.modifier_hit_success_probability
        == m1.modifier_hit_success_probability)
    &&& (m1.modifier_detectability is Some ==> m2.modifier_detectability
        == m1.modifier_detectability)
    &&& (m1.modifier_night_detectability is Some ==> m2.modifier_night_detectability
        == m1.modifier_night_detectability)
    &&& (m1.modifier_speed is Some ==> m2.modifier_speed == m1.modifier_speed)
    &&& (m1.hud_icon is Some ==> m2.hud_icon == m1.hud_icon)
    &&& m2.cn_name == m1.cn_name
}

/// Each scalar field is set at most once per record: whatever the attributes
/// of an item tag, a field that already holds a value keeps it, so the first
/// value observed in document order is the one retained.
pub proof fn lemma_carry_item_first_write_wins(
    m: OutputModel,
    log: Seq<Seq<char>>,
    attrs: Seq<(Seq<char>, Seq<char>)>,
)
    ensures
        spec_carry_item(m, log, attrs) matches Some(p) ==> fields_preserved(m, p.0),
    decreases attrs.len(),
{
    if attrs.len() > 0 {
        match spec_carry_item_attr(m, log, attrs[0].0, attrs[0].1) {
            Some(p) => {
                lemma_carry_item_first_write_wins(p.0, p.1, attrs.skip(1));
            },
            None => {},
        }
    }
}

/// The same first-write-wins policy holds through a modifier tag, whatever
/// class was carried in.
pub proof fn lemma_modifier_first_write_wins(
    m: OutputModel,
    prev_class: Option<Seq<char>>,
    attrs: Seq<(Seq<char>, Seq<char>)>,
)
    ensures
        fields_preserved(m, spec_modifier(m, prev_class, attrs)),
    decreases attrs.len(),
{
    if attrs.len() > 0 {
        if attrs[0].0 == "class"@ {
            lemma_modifier_first_write_wins(m, Some(attrs[0].1), attrs.skip(1));
        } else if attrs[0].0 == "value"@ {
            match prev_class {
                Some(c) => {
                    lemma_modifier_first_write_wins(
                        crate::parse::spec_modifier_value(m, c, attrs[0].1),
                        prev_class,
                        attrs.skip(1),
                    );
                },
                None => {
                    lemma_modifier_first_write_wins(m, None, attrs.skip(1));
                },
            }
        } else {
            lemma_modifier_first_write_wins(m, prev_class, attrs.skip(1));
        }
    }
}

/// The same first-write-wins policy holds through an icon tag.
pub proof fn lemma_hud_icon_first_write_wins(m: OutputModel, attrs: Seq<(Seq<char>, Seq<char>)>)
    ensures
        fields_preserved(m, spec_hud_icon(m, attrs)),
    decreases attrs.len(),
{
    if attrs.len() > 0 {
        if attrs[0].0 == "filename"@ {
            lemma_hud_icon_first_write_wins(
                OutputModel {
                    hud_icon: crate::model::spec_set_if_absent(m.hud_icon, attrs[0].1),
                    ..m
                },
                attrs.skip(1),
            );
        } else {
            lemma_hud_icon_first_write_wins(m, attrs.skip(1));
        }
    }
}

/// A modifier value attribute that no class attribute precedes has no field
/// effect: a modifier tag without any class attribute leaves the record
/// exactly as it was.
pub proof fn lemma_modifier_value_needs_class(m: OutputModel, attrs: Seq<(Seq<char>, Seq<char>)>)
    requires
        forall|j: int| 0 <= j < attrs.len() ==> attrs[j].0 != "class"@,
    ensures
        spec_modifier(m, None, attrs) == m,
    decreases attrs.len(),
{
    if attrs.len() > 0 {
        assert(attrs[0].0 != "class"@);
        assert(forall|j: int| 0 <= j < attrs.skip(1).len() ==> attrs.skip(1)[j] == attrs[j + 1]);
        lemma_modifier_value_needs_class(m, attrs.skip(1));
    }
}

/// More precisely: within one modifier tag, every attribute standing before
/// the first class attribute — value attributes included — has no field
/// effect: the tag acts as if its attributes began at the first class.
pub proof fn lemma_modifier_prefix_before_class(
    m: OutputModel,
    attrs: Seq<(Seq<char>, Seq<char>)>,
    j: int,
)
    requires
        0 <= j <= attrs.len(),
        forall|k: int| 0 <= k < j ==> attrs[k].0 != "class"@,
    ensures
        spec_modifier(m, None, attrs) == spec_modifier(m, None, attrs.skip(j)),
    decreases j,
{
    if j > 0 {
        assert(attrs[0].0 != "class"@);
        assert(forall|k: int|
            0 <= k < j - 1 ==> attrs.skip(1)[k] == attrs[k + 1]);
        lemma_modifier_prefix_before_class(m, attrs.skip(1), j - 1);
        assert(attrs.skip(1).skip(j - 1) =~= attrs.skip(j));
    } else {
        assert(attrs.skip(0) =~= attrs);
    }
}

/// The category filter is total: a record whose slot is absent or is not the
/// armor category never appears in the filtered output.
pub proof fn lemma_category_filter(rs: Seq<OutputModel>, t: Map<Seq<char>, Seq<char>>)
    ensures
        forall|k: int|
            0 <= k < spec_filter_enrich(rs, t).len() ==> spec_filter_enrich(rs, t)[k].slot
                == Some(ARMOR_SLOT),
    decreases rs.len(),
{
    if rs.len() > 0 {
        lemma_category_filter(rs.drop_last(), t);
    }
}

/// Translation enrichment: a record with a name takes its localized name
/// from the table, an absent key leaves it unset, and a record without a
/// name is left untouched; enrichment never changes any other field.
pub proof fn lemma_translation_enrichment(m: OutputModel, t: Map<Seq<char>, Seq<char>>)
    ensures
        m.name matches Some(nm) ==> spec_enrich(m, t).cn_name == (if t.contains_key(nm) {
            Some(t[nm])
        } else {
            None::<Seq<char>>
        }),
        m.name is None ==> spec_enrich(m, t) == m,
        spec_enrich(m, t).name == m.name,
        spec_enrich(m, t).slot == m.slot,
        spec_enrich(m, t).source_file_name == m.source_file_name,
{
}

/// The localized name a record ought to carry after enrichment against the
/// table: the table's entry for its name, nothing where the table has none,
/// and nothing where the record has no name at all.
pub open spec fn localization_of(m: OutputModel, t: Map<Seq<char>, Seq<char>>) -> bool {
    match m.name {
        Some(nm) => m.cn_name == (if t.contains_key(nm) {
            Some(t[nm])
        } else {
            None::<Seq<char>>
        }),
        None => m.cn_name is None,
    }
}

/// Extraction never writes the localized name: as long as the records
/// already finalized and the record being built carry none, every record the
/// remaining tokens finalize carries none either.
proof fn lemma_extract_events_localized_unset(
    recs: Seq<OutputModel>,
    cur: OutputModel,
    log: Seq<Seq<char>>,
    evs: Seq<EventModel>,
    src: Seq<char>,
)
    requires
        forall|k: int| 0 <= k < recs.len() ==> #[trigger] recs[k].cn_name is None,
        cur.cn_name is None,
    ensures
        crate::parse::spec_extract_events(recs, cur, log, evs, src) matches Some(st)
            ==> forall|k: int| 0 <= k < st.0.len() ==> #[trigger] st.0[k].cn_name is None,
    decreases evs.len(),
{
    if evs.len() > 0 {
        match crate::parse::spec_step(recs, cur, log, evs[0], src) {
            Some(st1) => {
                match evs[0] {
                    EventModel::Open { name, attrs } => {
                        lemma_carry_item_first_write_wins(cur, log, attrs);
                    },
                    EventModel::SelfClosed { name, attrs } => {
                        lemma_hud_icon_first_write_wins(cur, attrs);
                        lemma_modifier_first_write_wins(cur, None, attrs);
                    },
                    EventModel::Close { name } => {
                        assert(forall|k: int|
                            0 <= k < st1.0.len() ==> #[trigger] st1.0[k].cn_name is None);
                    },
                    _ => {},
                }
                lemma_extract_events_localized_unset(st1.0, st1.1, st1.2, evs.skip(1), src);
            },
            None => {},
        }
    }
}

/// Every record that extracting a file yields still has its localized name
/// unset: the lookup happens only in enrichment, after extraction.
pub proof fn lemma_extraction_leaves_localized_name_unset(
    evs: Seq<EventModel>,
    log: Seq<Seq<char>>,
    src: Seq<char>,
)
    ensures
        crate::parse::spec_extract_file(evs, log, src) matches Some(p) ==> forall|k: int|
            0 <= k < p.0.len() ==> #[trigger] p.0[k].cn_name is None,
{
    lemma_extract_events_localized_unset(
        Seq::empty(),
        crate::model::spec_fresh_output(src),
        log,
        evs,
        src,
    );
}

/// Translation enrichment, through the whole filtered output: where the
/// extracted records carry no localized name yet, every surviving record
/// with a name carries exactly the table's entry for it — nothing where the
/// table has no such key — and a surviving record without a name keeps its
/// localized name unset, since no lookup is performed for it.
pub proof fn lemma_filter_enrich_localization(rs: Seq<OutputModel>, t: Map<Seq<char>, Seq<char>>)
    requires
        forall|j: int| 0 <= j < rs.len() ==> #[trigger] rs[j].cn_name is None,
    ensures
        forall|k: int|
            0 <= k < spec_filter_enrich(rs, t).len() ==> localization_of(
                #[trigger] spec_filter_enrich(rs, t)[k],
                t,
            ),
    decreases rs.len(),
{
    if rs.len() > 0 {
        assert(forall|j: int|
            0 <= j < rs.drop_last().len() ==> #[trigger] rs.drop_last()[j].cn_name is None);
        lemma_filter_enrich_localization(rs.drop_last(), t);
        let out = spec_filter_enrich(rs, t);
        let rest = spec_filter_enrich(rs.drop_last(), t);
        assert(rs[rs.len() - 1].cn_name is None);
        if rs.last().slot == Some(ARMOR_SLOT) {
            assert(localization_of(spec_enrich(rs.last(), t), t));
            assert forall|k: int| 0 <= k < out.len() implies localization_of(out[k], t) by {
                if k < rest.len() {
                    assert(out[k] == rest[k]);
                } else {
                    assert(out[k] == spec_enrich(rs.last(), t));
                }
            }
        }
    }
}

/// The per-file pipeline is a function of its inputs alone: running it twice
/// on the same token stream, the same accumulated log, the same source name
/// and the same table yields the same rows and the same log.
pub proof fn lemma_pipeline_deterministic(
    evs1: Seq<EventModel>,
    evs2: Seq<EventModel>,
    log1: Seq<Seq<char>>,
    log2: Seq<Seq<char>>,
    src1: Seq<char>,
    src2: Seq<char>,
    t1: Map<Seq<char>, Seq<char>>,
    t2: Map<Seq<char>, Seq<char>>,
)
    requires
        evs1 == evs2,
        log1 == log2,
        src1 == src2,
        t1 == t2,
    ensures
        spec_pipeline(evs1, log1, src1, t1) == spec_pipeline(evs2, log2, src2, t2),
{
}

/// End to end: extracting the same unchanged text twice, with the same
/// accumulated log and the same source name, yields the same records and the
/// same log — the token stream is a function of the text alone, and
/// everything after the tokens is a function of the tokens.
pub proof fn lemma_extraction_deterministic(
    text1: Seq<char>,
    text2: Seq<char>,
    log1: Seq<Seq<char>>,
    log2: Seq<Seq<char>>,
    src1: Seq<char>,
    src2: Seq<char>,
)
    requires
        text1 == text2,
        log1 == log2,
        src1 == src2,
    ensures
        crate::parse::spec_extract_text(text1, log1, src1) == crate::parse::spec_extract_text(
            text2,
            log2,
            src2,
        ),
{
}

} // verus!
