//! TOML tables.

use vstd::prelude::*;

verus! {

/// A TOML value as the contracts speak of it.
pub enum Toml {
    Integer(int),
    Boolean(bool),
    Text(Seq<char>),
    Table(Map<Seq<char>, Toml>),
    /// Any other value, told apart by a number.
    Other(nat),
}

/// `toml::map::Map`, the table of a TOML document; opaque.
#[verifier::external_type_specification]
#[verifier::external_body]
#[verifier::reject_recursive_types(K)]
#[verifier::reject_recursive_types(V)]
pub struct ExTomlMap<K, V>(toml::map::Map<K, V>);

/// `toml::Value`, what a table holds under a key; opaque.
#[verifier::external_type_specification]
#[verifier::external_body]
pub struct ExTomlValue(toml::Value);

/// What a table holds.
pub uninterp spec fn table_entries(t: toml::map::Map<String, toml::Value>) -> Map<Seq<char>, Toml>;

/// What the TOML document `text` holds, where it is one.
pub uninterp spec fn parsed_table(text: Seq<char>) -> Option<Map<Seq<char>, Toml>>;

/// A table written down as a TOML document, where it can be.
pub uninterp spec fn pretty_text(entries: Map<Seq<char>, Toml>) -> Option<Seq<char>>;

/// A value to put into a table.
pub enum Setting {
    Integer(i64),
    Boolean(bool),
    Text(String),
    Table(toml::map::Map<String, toml::Value>),
}

impl Setting {
    /// The value that goes in.
    pub open spec fn value(self) -> Toml {
        match self {
            Setting::Integer(n) => Toml::Integer(n as int),
            Setting::Boolean(b) => Toml::Boolean(b),
            Setting::Text(s) => Toml::Text(s@),
            Setting::Table(t) => Toml::Table(table_entries(t)),
        }
    }
}

/// What a table holds under a key, as far as tables go.
pub enum Section {
    Absent,
    Table(toml::map::Map<String, toml::Value>),
    NotATable,
}

/// What an empty table holds.
pub open spec fn no_entries() -> Map<Seq<char>, Toml> {
    Map::empty()
}

/// Whether a value is a number, a yes or no, or a text.
pub open spec fn is_scalar(v: Toml) -> bool {
    v is Integer || v is Boolean || v is Text
}

/// The key that `toml` keeps for itself: a section that begins with it is read
/// as a date.
pub open spec fn date_key() -> Seq<char> {
    "$__toml_private_datetime"@
}

/// Whether a table holds such values alone, and none under the key of a date.
pub open spec fn is_flat(m: Map<Seq<char>, Toml>) -> bool {
    &&& forall|k: Seq<char>| #[trigger] m.contains_key(k) ==> is_scalar(m[k])
    &&& !m.contains_key(date_key())
}

/// Whether a table holds such values and tables of them alone.
pub open spec fn is_shallow(m: Map<Seq<char>, Toml>) -> bool {
    forall|k: Seq<char>| #[trigger]
        m.contains_key(k) ==> is_scalar(m[k]) || (m[k] is Table && is_flat(m[k]->Table_0))
}

/// `toml::Table::new` makes an empty table.
#[verifier::external_body]
pub(crate) fn table_new() -> (t: toml::map::Map<String, toml::Value>)
    ensures
        table_entries(t) == no_entries(),
{
    toml::Table::new()
}

/// `str::parse` into a `toml::Table` reads a TOML document; the result depends
/// on the text alone.
#[verifier::external_body]
pub(crate) fn table_parse(text: &str) -> (r: Option<toml::map::Map<String, toml::Value>>)
    ensures
        match r {
            Some(t) => parsed_table(text@) == Some(table_entries(t)),
            None => parsed_table(text@) is None,
        },
{
    text.parse::<toml::Table>().ok()
}

/// `toml::map::Map::get` looks a key up; what is found is copied out where it
/// is a table.
#[verifier::external_body]
pub(crate) fn table_section(t: &toml::map::Map<String, toml::Value>, key: &str) -> (r: Section)
    ensures
        match r {
            Section::Absent => !table_entries(*t).contains_key(key@),
            Section::Table(s) => table_entries(*t).contains_key(key@) && table_entries(*t)[key@]
                == Toml::Table(table_entries(s)),
            Section::NotATable => table_entries(*t).contains_key(key@) && !(
            table_entries(*t)[key@] is Table),
        },
{
    match t.get(key) {
        None => Section::Absent,
        Some(toml::Value::Table(s)) => Section::Table(s.clone()),
        Some(_) => Section::NotATable,
    }
}

/// `toml::map::Map::insert` puts a value under a key, in place of any that was
/// there.
#[verifier::external_body]
pub(crate) fn table_insert(
    t: &mut toml::map::Map<String, toml::Value>,
    key: &str,
    value: Setting,
)
    ensures
        table_entries(*final(t)) == table_entries(*old(t)).insert(key@, value.value()),
{
    let v = match value {
        Setting::Integer(n) => toml::Value::Integer(n),
        Setting::Boolean(b) => toml::Value::Boolean(b),
        Setting::Text(s) => toml::Value::String(s),
        Setting::Table(s) => toml::Value::Table(s),
    };
    t.insert(key.to_string(), v);
}

/// `toml::to_string_pretty` writes a table down; the text depends on what the
/// table holds alone. A table of numbers, yes or no, texts and tables of these is
/// always written, and reads back as it was, as long as no table in it has the
/// key of a date. Of other tables nothing is said of what they read back as.
#[verifier::external_body]
pub(crate) fn table_pretty(t: &toml::map::Map<String, toml::Value>) -> (r: Option<String>)
    ensures
        match r {
            Some(s) => pretty_text(table_entries(*t)) == Some(s@) && (is_shallow(table_entries(*t))
                ==> parsed_table(s@) == Some(table_entries(*t))),
            None => pretty_text(table_entries(*t)) is None && !is_shallow(table_entries(*t)),
        },
{
    toml::to_string_pretty(t).ok()
}

} // verus!
