use vstd::prelude::*;

verus! {

/// Command-line options: the item-definition directory and the translation file.
pub struct Opt {
    pub input: String,
    pub translation: String,
}

/// The errors that extraction can raise. Markup that the tokenizer cannot
/// parse is fatal for the file, and so is a numeric attribute whose text is
/// not a number of the expected shape.
#[derive(Clone, Copy, PartialEq, Eq, Structural, Debug)]
pub enum ExtractError {
    MalformedMarkup,
    AttributeParse,
}

/// One extracted item record. Every field except the originating file name is
/// optional, because not every markup file populates every attribute. The
/// numeric factors are kept as their validated source text: the library
/// checks the text parses as a number and otherwise passes it through.
#[derive(Debug, Clone)]
pub struct Output {
    pub source_file_name: String,

    pub key: Option<String>,
    pub name: Option<String>,
    pub transform_on_consume: Option<String>,
    pub slot: Option<i8>,
    pub drop_count_factor_on_death: Option<String>,
    pub time_to_live_out_in_the_open: Option<String>,
    pub player_death_drop_owner_lock_time: Option<String>,

    pub modifier_hit_success_probability: Option<String>,
    pub modifier_detectability: Option<String>,
    pub modifier_night_detectability: Option<String>,
    pub modifier_speed: Option<String>,

    pub hud_icon: Option<String>,

    pub cn_name: Option<String>,
}

/// The mathematical value of a record: each text field as a sequence of
/// characters.
pub struct OutputModel {
    pub source_file_name: Seq<char>,
    pub key: Option<Seq<char>>,
    pub name: Option<Seq<char>>,
    pub transform_on_consume: Option<Seq<char>>,
    pub slot: Option<i8>,
    pub drop_count_factor_on_death: Option<Seq<char>>,
    pub time_to_live_out_in_the_open: Option<Seq<char>>,
    pub player_death_drop_owner_lock_time: Option<Seq<char>>,
    pub modifier_hit_success_probability: Option<Seq<char>>,
    pub modifier_detectability: Option<Seq<char>>,
    pub modifier_night_detectability: Option<Seq<char>>,
    pub modifier_speed: Option<Seq<char>>,
    pub hud_icon: Option<Seq<char>>,
    pub cn_name: Option<Seq<char>>,
}

pub open spec fn view_opt(o: Option<String>) -> Option<Seq<char>> {
    match o {
        Some(s) => Some(s@),
        None => None,
    }
}

/// The view of a sequence of strings: each as its characters.
pub open spec fn strings_view(l: Seq<String>) -> Seq<Seq<char>> {
    l.map_values(|s: String| s@)
}

impl View for Output {
    type V = OutputModel;

    open spec fn view(&self) -> OutputModel {
        OutputModel {
            source_file_name: self.source_file_name@,
            key: view_opt(self.key),
            name: view_opt(self.name),
            transform_on_consume: view_opt(self.transform_on_consume),
            slot: self.slot,
            drop_count_factor_on_death: view_opt(self.drop_count_factor_on_death),
            time_to_live_out_in_the_open: view_opt(self.time_to_live_out_in_the_open),
            player_death_drop_owner_lock_time: view_opt(self.player_death_drop_owner_lock_time),
            modifier_hit_success_probability: view_opt(self.modifier_hit_success_probability),
            modifier_detectability: view_opt(self.modifier_detectability),
            modifier_night_detectability: view_opt(self.modifier_night_detectability),
            modifier_speed: view_opt(self.modifier_speed),
            hud_icon: view_opt(self.hud_icon),
            cn_name: view_opt(self.cn_name),
        }
    }
}

/// The view of a record sequence.
pub open spec fn records_view(rs: Seq<Output>) -> Seq<OutputModel> {
    rs.map_values(|o: Output| o@)
}

/// A record as it is first created: every optional field still unset.
pub open spec fn spec_fresh_output(source_file: Seq<char>) -> OutputModel {
    OutputModel {
        source_file_name: source_file,
        key: None,
        name: None,
        transform_on_consume: None,
        slot: None,
        drop_count_factor_on_death: None,
        time_to_live_out_in_the_open: None,
        player_death_drop_owner_lock_time: None,
        modifier_hit_success_probability: None,
        modifier_detectability: None,
        modifier_night_detectability: None,
        modifier_speed: None,
        hud_icon: None,
        cn_name: None,
    }
}

impl Default for Output {
    fn default() -> (r: Self)
        ensures
            r@ == spec_fresh_output(Seq::<char>::empty()),
    {
        Output {
            source_file_name: String::new(),
            key: None,
            name: None,
            transform_on_consume: None,
            slot: None,
            drop_count_factor_on_death: None,
            time_to_live_out_in_the_open: None,
            player_death_drop_owner_lock_time: None,
            modifier_hit_success_probability: None,
            modifier_detectability: None,
            modifier_night_detectability: None,
            modifier_speed: None,
            hud_icon: None,
            cn_name: None,
        }
    }
}

/// A fresh record for one source file, with the originating file name set at
/// creation.
pub fn fresh_output(source_file: &str) -> (r: Output)
    ensures
        r@ == spec_fresh_output(source_file@),
{
    let mut o = Output::default();
    o.source_file_name = source_file.to_owned();
    o
}

/// First write wins: a value is stored only when the field is still unset,
/// and later occurrences are silently ignored.
pub open spec fn spec_set_if_absent(field: Option<Seq<char>>, value: Seq<char>) -> Option<Seq<char>> {
    if field is Some {
        field
    } else {
        Some(value)
    }
}

/// Stores `value` into `field` only when the field is still empty.
pub fn set_if_absent(field: &mut Option<String>, value: String)
    ensures
        view_opt(*final(field)) == spec_set_if_absent(view_opt(*old(field)), value@),
{
    if field.is_none() {
        *field = Some(value);
    }
}

} // verus!
