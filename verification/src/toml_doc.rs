//! The configuration file as a TOML document: its top-level entries, the
//! fields of its tables, and setting a text field in one of its tables.
use vstd::prelude::*;
use crate::text::text_eq;

verus! {

#[verifier::external_type_specification]
#[verifier::external_body]
pub struct ExTomlValue(toml::Value);

/// A field of a top-level table: text, or any other TOML value carried as it is.
#[derive(Debug)]
pub enum TomlField {
    Text(String),
    Other(toml::Value),
}

/// The value of a top-level entry: a table with its fields, or any other value.
#[derive(Debug)]
pub enum TomlEntry {
    Table(Vec<(String, TomlField)>),
    Other(toml::Value),
}

/// A parsed TOML document: its top-level entries.
#[derive(Debug)]
pub struct TomlDocument {
    pub entries: Vec<(String, TomlEntry)>,
}

/// View of a table field.
pub enum FieldView {
    Text(Seq<char>),
    Other(toml::Value),
}

/// View of a top-level entry's value.
pub enum EntryView {
    Table(Seq<(Seq<char>, FieldView)>),
    Other(toml::Value),
}

pub open spec fn field_view(f: TomlField) -> FieldView {
    match f {
        TomlField::Text(s) => FieldView::Text(s@),
        TomlField::Other(v) => FieldView::Other(v),
    }
}

pub open spec fn fields_view(fields: Seq<(String, TomlField)>) -> Seq<(Seq<char>, FieldView)> {
    fields.map_values(|p: (String, TomlField)| (p.0@, field_view(p.1)))
}

pub open spec fn entry_view(e: TomlEntry) -> EntryView {
    match e {
        TomlEntry::Table(fields) => EntryView::Table(fields_view(fields@)),
        TomlEntry::Other(v) => EntryView::Other(v),
    }
}

pub open spec fn doc_view(d: TomlDocument) -> Seq<(Seq<char>, EntryView)> {
    d.entries@.map_values(|p: (String, TomlEntry)| (p.0@, entry_view(p.1)))
}

/// The top-level entries that `toml::from_str` reads from `content` as a
/// table, or the text of its error.
pub uninterp spec fn toml_parsed(content: Seq<char>) -> Result<Seq<(Seq<char>, EntryView)>, Seq<char>>;

/// The text that `toml::to_string_pretty` writes for the table of these
/// entries, or the text of its error.
pub uninterp spec fn toml_printed(doc: Seq<(Seq<char>, EntryView)>) -> Result<Seq<char>, Seq<char>>;

/// Parses `content` with `toml::from_str` as a `toml::Table` and hands out
/// its entries, telling tables and, inside them, strings apart from other
/// values; an error is handed out as its text. Claimed: the outcome is the
/// named one.
#[verifier::external_body]
pub(crate) fn parse_toml(content: &str) -> (r: Result<TomlDocument, String>)
    ensures
        match r {
            Ok(d) => toml_parsed(content@) == Ok::<Seq<(Seq<char>, EntryView)>, Seq<char>>(doc_view(d)),
            Err(e) => toml_parsed(content@) == Err::<Seq<(Seq<char>, EntryView)>, Seq<char>>(e@),
        },
{
    let table: toml::Table = toml::from_str(content).map_err(|e| e.to_string())?;
    let field = |v: toml::Value| match v { toml::Value::String(s) => TomlField::Text(s), o => TomlField::Other(o) };
    let entries = table.into_iter().map(|(k, v)| match v {
        toml::Value::Table(t) => (k, TomlEntry::Table(t.into_iter().map(|(f, x)| (f, field(x))).collect())),
        o => (k, TomlEntry::Other(o)),
    });
    Ok(TomlDocument { entries: entries.collect() })
}

/// Writes the table of `doc`'s entries with `toml::to_string_pretty`; an
/// error is handed out as its text. Claimed: the outcome is the named one.
#[verifier::external_body]
pub(crate) fn print_toml(doc: TomlDocument) -> (r: Result<String, String>)
    ensures
        match r {
            Ok(t) => toml_printed(doc_view(doc)) == Ok::<Seq<char>, Seq<char>>(t@),
            Err(e) => toml_printed(doc_view(doc)) == Err::<Seq<char>, Seq<char>>(e@),
        },
{
    let field = |f: TomlField| match f { TomlField::Text(s) => toml::Value::String(s), TomlField::Other(v) => v };
    let table: toml::Table = doc.entries.into_iter().map(|(k, e)| match e {
        TomlEntry::Table(t) => (k, toml::Value::Table(t.into_iter().map(|(f, x)| (f, field(x))).collect())),
        TomlEntry::Other(v) => (k, v),
    }).collect();
    toml::to_string_pretty(&toml::Value::Table(table)).map_err(|e| e.to_string())
}

/// Whether `i` is the first position of `key` among the keys of `items`.
pub open spec fn first_key_at<V>(items: Seq<(Seq<char>, V)>, key: Seq<char>, i: int) -> bool {
    &&& 0 <= i < items.len()
    &&& items[i].0 == key
    &&& forall|j: int| 0 <= j < i ==> items[j].0 != key
}

/// Whether `key` occurs among the keys.
pub open spec fn has_key<V>(items: Seq<(Seq<char>, V)>, key: Seq<char>) -> bool {
    exists|i: int| 0 <= i < items.len() && items[i].0 == key
}

/// Fields with `key` set to the text `value`: the first field of that key
/// takes the value, or a field is added at the end where there is none.
pub open spec fn with_text_field(fields: Seq<(Seq<char>, FieldView)>, key: Seq<char>, value: Seq<char>) -> Seq<(Seq<char>, FieldView)> {
    if has_key(fields, key) {
        let i = choose|i: int| first_key_at(fields, key, i);
        fields.update(i, (key, FieldView::Text(value)))
    } else {
        fields.push((key, FieldView::Text(value)))
    }
}

/// The document with the text field `field` set to `value` in the table
/// under `table`; unchanged where that entry is missing or not a table.
pub open spec fn with_table_text(doc: Seq<(Seq<char>, EntryView)>, table: Seq<char>, field: Seq<char>, value: Seq<char>) -> Seq<(Seq<char>, EntryView)> {
    if has_key(doc, table) {
        let i = choose|i: int| first_key_at(doc, table, i);
        match doc[i].1 {
            EntryView::Table(fields) => doc.update(i, (table, EntryView::Table(with_text_field(fields, field, value)))),
            EntryView::Other(_) => doc,
        }
    } else {
        doc
    }
}

/// The first position of `key` among the keys, if any.
fn find_key<V>(items: &Vec<(String, V)>, key: &str) -> (r: Option<usize>)
    ensures
        match r {
            Some(i) => first_key_at(items@.map_values(|p: (String, V)| (p.0@, ())), key@, i as int),
            None => !has_key(items@.map_values(|p: (String, V)| (p.0@, ())), key@),
        },
{
    let ghost keys = items@.map_values(|p: (String, V)| (p.0@, ()));
    let mut i: usize = 0;
    while i < items.len()
        invariant
            0 <= i <= items@.len(),
            keys == items@.map_values(|p: (String, V)| (p.0@, ())),
            forall|j: int| 0 <= j < i ==> keys[j].0 != key@,
        decreases items@.len() - i,
    {
        if text_eq(items[i].0.as_str(), key) {
            return Some(i);
        }
        i = i + 1;
    }
    None
}

/// Keys of `items` paired with anything: the first position of a key does
/// not depend on what is paired with it.
proof fn lemma_keys_match<A, B>(a: Seq<(Seq<char>, A)>, b: Seq<(Seq<char>, B)>, key: Seq<char>)
    requires
        a.len() == b.len(),
        forall|j: int| 0 <= j < a.len() ==> a[j].0 == b[j].0,
    ensures
        has_key(a, key) == has_key(b, key),
        forall|i: int| first_key_at(a, key, i) == first_key_at(b, key, i),
{
    if has_key(a, key) {
        let i = choose|i: int| 0 <= i < a.len() && a[i].0 == key;
        assert(0 <= i < b.len() && b[i].0 == key);
    }
    if has_key(b, key) {
        let i = choose|i: int| 0 <= i < b.len() && b[i].0 == key;
        assert(0 <= i < a.len() && a[i].0 == key);
    }
}

/// The first position of a key is the only one.
proof fn lemma_first_unique<V>(items: Seq<(Seq<char>, V)>, key: Seq<char>, i: int, k: int)
    requires
        first_key_at(items, key, i),
        first_key_at(items, key, k),
    ensures
        i == k,
{
}

/// `fields` with the text field `key` set to `value`.
pub fn set_text_field(fields: Vec<(String, TomlField)>, key: &str, value: &str) -> (r: Vec<(String, TomlField)>)
    ensures
        fields_view(r@) == with_text_field(fields_view(fields@), key@, value@),
{
    let mut fields = fields;
    let ghost before = fields_view(fields@);
    let found = find_key(&fields, key);
    proof {
        lemma_keys_match(fields@.map_values(|p: (String, TomlField)| (p.0@, ())), before, key@);
    }
    match found {
        Some(i) => {
            proof {
                let c = choose|c: int| first_key_at(before, key@, c);
                lemma_first_unique(before, key@, i as int, c);
            }
            fields.set(i, (String::from_str(key), TomlField::Text(String::from_str(value))));
            assert(fields_view(fields@) =~= before.update(i as int, (key@, FieldView::Text(value@))));
        },
        None => {
            fields.push((String::from_str(key), TomlField::Text(String::from_str(value))));
            assert(fields_view(fields@) =~= before.push((key@, FieldView::Text(value@))));
        },
    }
    fields
}

/// `doc` with the text field `field` set to `value` in its table `table`;
/// unchanged where there is no such table.
pub fn set_table_text(doc: TomlDocument, table: &str, field: &str, value: &str) -> (r: TomlDocument)
    ensures
        doc_view(r) == with_table_text(doc_view(doc), table@, field@, value@),
{
    let mut entries = doc.entries;
    let ghost before = doc_view(doc);
    assert(before == entries@.map_values(|p: (String, TomlEntry)| (p.0@, entry_view(p.1))));
    let found = find_key(&entries, table);
    proof {
        lemma_keys_match(entries@.map_values(|p: (String, TomlEntry)| (p.0@, ())), before, table@);
    }
    match found {
        Some(i) => {
            proof {
                let c = choose|c: int| first_key_at(before, table@, c);
                lemma_first_unique(before, table@, i as int, c);
            }
            let (k, e) = entries.remove(i);
            match e {
                TomlEntry::Table(fields) => {
                    let updated = set_text_field(fields, field, value);
                    entries.insert(i, (k, TomlEntry::Table(updated)));
                    assert(entries@.map_values(|p: (String, TomlEntry)| (p.0@, entry_view(p.1))) =~= before.update(
                        i as int,
                        (table@, EntryView::Table(with_text_field(fields_view(fields@), field@, value@))),
                    ));
                },
                TomlEntry::Other(v) => {
                    entries.insert(i, (k, TomlEntry::Other(v)));
                    assert(entries@.map_values(|p: (String, TomlEntry)| (p.0@, entry_view(p.1))) =~= before);
                },
            }
        },
        None => {},
    }
    TomlDocument { entries }
}

} // verus!
