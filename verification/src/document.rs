//! The configuration file as the settings read it: top-level tables of
//! keys with text, integer and boolean values.

use vstd::prelude::*;
use vstd::string::StringExecFns;

verus! {

/// A value of the configuration, as far as the settings tell values apart.
#[derive(Debug)]
pub enum TomlValue {
    Text(String),
    Integer(i64),
    Boolean(bool),
    /// A float, a date, an array or a table.
    Other,
}

pub enum TomlValueView {
    Text(Seq<char>),
    Integer(i64),
    Boolean(bool),
    Other,
}

impl View for TomlValue {
    type V = TomlValueView;

    open spec fn view(&self) -> TomlValueView {
        match self {
            TomlValue::Text(t) => TomlValueView::Text(t@),
            TomlValue::Integer(i) => TomlValueView::Integer(*i),
            TomlValue::Boolean(b) => TomlValueView::Boolean(*b),
            TomlValue::Other => TomlValueView::Other,
        }
    }
}

/// One key of a table, with its value.
#[derive(Debug)]
pub struct TomlEntry {
    pub key: String,
    pub value: TomlValue,
}

pub struct TomlEntryView {
    pub key: Seq<char>,
    pub value: TomlValueView,
}

impl View for TomlEntry {
    type V = TomlEntryView;

    open spec fn view(&self) -> TomlEntryView {
        TomlEntryView { key: self.key@, value: self.value@ }
    }
}

/// The views of the entries of a table, in order.
pub open spec fn entries_view(entries: Seq<TomlEntry>) -> Seq<TomlEntryView> {
    entries.map_values(|e: TomlEntry| e@)
}

/// One top-level key of the document: a table with its entries, or, with
/// `entries` absent, a value that is no table.
#[derive(Debug)]
pub struct TomlTable {
    pub name: String,
    pub entries: Option<Vec<TomlEntry>>,
}

pub struct TomlTableView {
    pub name: Seq<char>,
    pub entries: Option<Seq<TomlEntryView>>,
}

impl View for TomlTable {
    type V = TomlTableView;

    open spec fn view(&self) -> TomlTableView {
        TomlTableView {
            name: self.name@,
            entries: match self.entries {
                Some(entries) => Some(entries_view(entries@)),
                None => None,
            },
        }
    }
}

/// The views of the tables of a document, in order.
pub open spec fn tables_view(tables: Seq<TomlTable>) -> Seq<TomlTableView> {
    tables.map_values(|t: TomlTable| t@)
}

/// The top-level keys of `text` read as a TOML document, in the order the
/// parser keeps them; `None` where `text` is not TOML.
pub uninterp spec fn toml_document(text: Seq<char>) -> Option<Seq<TomlTableView>>;

/// Parses `text` with `toml::Value`'s `from_str` and copies out the
/// top-level tables and their entries. Trusted: the result is a function of
/// the text alone, named `toml_document`; the grammar is not modelled.
#[verifier::external_body]
pub(crate) fn parse_toml(text: &str) -> (document: Option<Vec<TomlTable>>)
    ensures
        match document {
            Some(tables) => toml_document(text@) == Some(tables_view(tables@)),
            None => toml_document(text@) is None,
        },
{
    let value = text.parse::<toml::Value>().ok()?;
    let tables = value.as_table()?.iter();
    Some(tables.map(|(name, v)| TomlTable {
        name: name.clone(),
        entries: v.as_table().map(|t| t.iter().map(|(key, field)| TomlEntry {
            key: key.clone(),
            value: match field {
                toml::Value::String(s) => TomlValue::Text(s.clone()),
                toml::Value::Integer(i) => TomlValue::Integer(*i),
                toml::Value::Boolean(b) => TomlValue::Boolean(*b),
                _ => TomlValue::Other,
            },
        }).collect()),
    }).collect())
}

/// The value that `entries` holds under `key`.
pub open spec fn entry_at(entries: Seq<TomlEntryView>, key: Seq<char>) -> Option<TomlValueView>
    decreases entries.len(),
{
    if entries.len() == 0 {
        None
    } else if entries[0].key == key {
        Some(entries[0].value)
    } else {
        entry_at(entries.skip(1), key)
    }
}

/// The top-level key of `tables` named `name`.
pub open spec fn table_at(tables: Seq<TomlTableView>, name: Seq<char>) -> Option<TomlTableView>
    decreases tables.len(),
{
    if tables.len() == 0 {
        None
    } else if tables[0].name == name {
        Some(tables[0])
    } else {
        table_at(tables.skip(1), name)
    }
}

/// Looks up `key` among `entries`.
pub fn find_entry<'a>(entries: &'a Vec<TomlEntry>, key: &str) -> (found: Option<&'a TomlValue>)
    ensures
        match found {
            Some(value) => entry_at(entries_view(entries@), key@) == Some(value@),
            None => entry_at(entries_view(entries@), key@) is None,
        },
{
    let wanted = String::from_str(key);
    let ghost all = entries_view(entries@);
    let mut i: usize = 0;
    assert(all.skip(0) =~= all);
    while i < entries.len()
        invariant
            i <= entries.len(),
            all == entries_view(entries@),
            wanted@ == key@,
            entry_at(all, key@) == entry_at(all.skip(i as int), key@),
        decreases entries.len() - i,
    {
        assert(all.skip(i as int)[0] == all[i as int]);
        assert(all.skip(i as int).skip(1) =~= all.skip(i + 1));
        if entries[i].key == wanted {
            return Some(&entries[i].value);
        }
        i = i + 1;
    }
    None
}

/// Looks up the top-level key `name` among `tables`.
pub fn find_table<'a>(tables: &'a Vec<TomlTable>, name: &str) -> (found: Option<&'a TomlTable>)
    ensures
        match found {
            Some(table) => table_at(tables_view(tables@), name@) == Some(table@),
            None => table_at(tables_view(tables@), name@) is None,
        },
{
    let wanted = String::from_str(name);
    let ghost all = tables_view(tables@);
    let mut i: usize = 0;
    assert(all.skip(0) =~= all);
    while i < tables.len()
        invariant
            i <= tables.len(),
            all == tables_view(tables@),
            wanted@ == name@,
            table_at(all, name@) == table_at(all.skip(i as int), name@),
        decreases tables.len() - i,
    {
        assert(all.skip(i as int)[0] == all[i as int]);
        assert(all.skip(i as int).skip(1) =~= all.skip(i + 1));
        if tables[i].name == wanted {
            return Some(&tables[i]);
        }
        i = i + 1;
    }
    None
}

} // verus!
