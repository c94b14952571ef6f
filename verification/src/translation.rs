use vstd::prelude::*;
use crate::events::{attrs_view, events_view, EventModel, MarkupEvent};
use crate::model::ExtractError;
use crate::textutil::str_eq;

verus! {

/// A mapping from translation keys to localized display strings, built once
/// per run. A key that repeats across the source overwrites its earlier
/// value: the translation source is authoritative.
pub struct TranslationTable {
    entries: Vec<(String, String)>,
}

/// The map that an entry list denotes: a later entry for the same key wins.
pub open spec fn map_of_entries(s: Seq<(String, String)>) -> Map<Seq<char>, Seq<char>>
    decreases s.len(),
{
    if s.len() == 0 {
        Map::empty()
    } else {
        map_of_entries(s.drop_last()).insert(s.last().0@, s.last().1@)
    }
}

/// The value of the last entry carrying the given key, if any.
pub open spec fn spec_entry_lookup(s: Seq<(String, String)>, k: Seq<char>) -> Option<Seq<char>>
    decreases s.len(),
{
    if s.len() == 0 {
        None
    } else if s.last().0@ == k {
        Some(s.last().1@)
    } else {
        spec_entry_lookup(s.drop_last(), k)
    }
}

/// Scanning the entries from the end agrees with the map the entries denote.
pub proof fn lemma_entry_lookup_is_map_get(s: Seq<(String, String)>, k: Seq<char>)
    ensures
        spec_entry_lookup(s, k) == (if map_of_entries(s).contains_key(k) {
            Some(map_of_entries(s)[k])
        } else {
            None::<Seq<char>>
        }),
    decreases s.len(),
{
    if s.len() > 0 {
        lemma_entry_lookup_is_map_get(s.drop_last(), k);
    }
}

impl View for TranslationTable {
    type V = Map<Seq<char>, Seq<char>>;

    closed spec fn view(&self) -> Map<Seq<char>, Seq<char>> {
        map_of_entries(self.entries@)
    }
}

impl TranslationTable {
    /// An empty table.
    pub fn new() -> (t: Self)
        ensures
            t@ == Map::<Seq<char>, Seq<char>>::empty(),
    {
        TranslationTable { entries: Vec::new() }
    }

    /// Inserts a pair; a repeated key overwrites the earlier value.
    pub fn insert(&mut self, key: String, value: String)
        ensures
            final(self)@ == old(self)@.insert(key@, value@),
    {
        let ghost s0 = self.entries@;
        self.entries.push((key, value));
        proof {
            assert(self.entries@.drop_last() =~= s0);
        }
    }

    /// Looks up a key; `None` where the table holds no entry for it.
    #[verifier::loop_isolation(false)]
    pub fn lookup(&self, key: &str) -> (r: Option<String>)
        ensures
            match r {
                Some(v) => self@.contains_key(key@) && v@ == self@[key@],
                None => !self@.contains_key(key@),
            },
    {
        let ghost s = self.entries@;
        let mut i: usize = self.entries.len();
        proof {
            assert(s.take(i as int) =~= s);
            lemma_entry_lookup_is_map_get(s, key@);
        }
        while i > 0
            invariant
                i <= self.entries.len(),
                spec_entry_lookup(s, key@) == spec_entry_lookup(s.take(i as int), key@),
            decreases i,
        {
            i -= 1;
            let ghost t = s.take(i as int + 1);
            proof {
                assert(t.last() == s[i as int]);
                assert(t.drop_last() =~= s.take(i as int));
            }
            let pair = &self.entries[i];
            if str_eq(pair.0.as_str(), key) {
                return Some(pair.1.clone());
            }
        }
        proof {
            assert(s.take(0) =~= Seq::<(String, String)>::empty());
        }
        None
    }
}

// ---------------------------------------------------------------------------
// Building the table from translation markup
// ---------------------------------------------------------------------------

/// What one attribute of a translation text tag does to the table and to the
/// carried key: a `key` attribute sets the carried key; a `text` attribute
/// inserts the pair when the carried key is non-empty, and is skipped
/// otherwise; every other attribute is ignored.
pub open spec fn spec_translation_attr(
    t: Map<Seq<char>, Seq<char>>,
    prev_key: Seq<char>,
    key: Seq<char>,
    value: Seq<char>,
) -> (Map<Seq<char>, Seq<char>>, Seq<char>) {
    if key == "key"@ {
        (t, value)
    } else if key == "text"@ {
        if prev_key.len() > 0 {
            (t.insert(prev_key, value), prev_key)
        } else {
            (t, prev_key)
        }
    } else {
        (t, prev_key)
    }
}

/// The attributes of one translation text tag, applied in document order,
/// starting with an empty carried key.
pub open spec fn spec_translation_attrs(
    t: Map<Seq<char>, Seq<char>>,
    prev_key: Seq<char>,
    attrs: Seq<(Seq<char>, Seq<char>)>,
) -> Map<Seq<char>, Seq<char>>
    decreases attrs.len(),
{
    if attrs.len() == 0 {
        t
    } else {
        let p = spec_translation_attr(t, prev_key, attrs[0].0, attrs[0].1);
        spec_translation_attrs(p.0, p.1, attrs.skip(1))
    }
}

/// Applies the attributes of one translation text tag to the table.
#[verifier::loop_isolation(false)]
pub fn parse_translation_text(attrs: &Vec<(String, String)>, map: &mut TranslationTable)
    ensures
        final(map)@ == spec_translation_attrs(
            old(map)@,
            Seq::<char>::empty(),
            attrs_view(attrs@),
        ),
{
    let ghost a_full = attrs_view(attrs@);
    let ghost t0 = old(map)@;
    let mut prev_text_key = String::new();
    proof {
        assert(a_full.skip(0) =~= a_full);
    }
    let n = attrs.len();
    let mut i: usize = 0;
    while i < n
        invariant
            i <= n,
            n == attrs.len(),
            spec_translation_attrs(t0, Seq::<char>::empty(), a_full) == spec_translation_attrs(
                (*map)@,
                prev_text_key@,
                a_full.skip(i as int),
            ),
        decreases n - i,
    {
        let ghost rest = a_full.skip(i as int);
        proof {
            assert(rest[0] == a_full[i as int]);
            assert(rest.skip(1) =~= a_full.skip(i as int + 1));
        }
        let pair = &attrs[i];
        if str_eq(pair.0.as_str(), "key") {
            prev_text_key = pair.1.clone();
        } else if str_eq(pair.0.as_str(), "text") {
            if !prev_text_key.as_str().is_empty() {
                map.insert(prev_text_key.clone(), pair.1.clone());
            }
        }
        i += 1;
    }
    proof {
        assert(a_full.skip(n as int) =~= Seq::<(Seq<char>, Seq<char>)>::empty());
    }
}

/// What one self-closing translation tag does: only `text` tags are
/// recognized; every other tag leaves the table unchanged.
pub open spec fn spec_translation_event(
    t: Map<Seq<char>, Seq<char>>,
    name: Seq<char>,
    attrs: Seq<(Seq<char>, Seq<char>)>,
) -> Map<Seq<char>, Seq<char>> {
    if name == "text"@ {
        spec_translation_attrs(t, Seq::<char>::empty(), attrs)
    } else {
        t
    }
}

/// Dispatches one self-closing translation tag. It never fails.
pub fn parse_translation_empty(
    name: &str,
    attrs: &Vec<(String, String)>,
    map: &mut TranslationTable,
) -> (r: Result<(), ExtractError>)
    ensures
        r is Ok,
        final(map)@ == spec_translation_event(old(map)@, name@, attrs_view(attrs@)),
{
    if str_eq(name, "text") {
        parse_translation_text(attrs, map);
    }
    Ok(())
}

/// The table that a translation token stream denotes: only self-closing
/// tags are read; opening tags, text and all other constructs are consumed
/// without effect.
pub open spec fn spec_translation_events(
    t: Map<Seq<char>, Seq<char>>,
    evs: Seq<EventModel>,
) -> Map<Seq<char>, Seq<char>>
    decreases evs.len(),
{
    if evs.len() == 0 {
        t
    } else {
        let t2 = match evs[0] {
            EventModel::SelfClosed { name, attrs } => spec_translation_event(t, name, attrs),
            _ => t,
        };
        spec_translation_events(t2, evs.skip(1))
    }
}

/// Builds the translation table from a translation token stream.
#[verifier::loop_isolation(false)]
pub fn build_translation_from_events(events: &Vec<MarkupEvent>) -> (t: TranslationTable)
    ensures
        t@ == spec_translation_events(
            Map::<Seq<char>, Seq<char>>::empty(),
            events_view(events@),
        ),
{
    let ghost e_full = events_view(events@);
    let mut table = TranslationTable::new();
    proof {
        assert(e_full.skip(0) =~= e_full);
    }
    let n = events.len();
    let mut i: usize = 0;
    while i < n
        invariant
            i <= n,
            n == events.len(),
            spec_translation_events(Map::<Seq<char>, Seq<char>>::empty(), e_full)
                == spec_translation_events(table@, e_full.skip(i as int)),
        decreases n - i,
    {
        let ghost rest = e_full.skip(i as int);
        proof {
            assert(rest[0] == e_full[i as int]);
            assert(rest.skip(1) =~= e_full.skip(i as int + 1));
        }
        match &events[i] {
            MarkupEvent::SelfClosed { name, attrs } => {
                match parse_translation_empty(name.as_str(), attrs, &mut table) {
                    Ok(_) => {},
                    Err(_) => {},
                }
            },
            _ => {},
        }
        i += 1;
    }
    proof {
        assert(e_full.skip(n as int) =~= Seq::<EventModel>::empty());
    }
    table
}

} // verus!
