//! TOML documents as plain values.
use vstd::prelude::*;
use crate::text::text_eq;

verus! {

/// The model of a TOML value. Only what is read out of a document is told
/// apart.
pub enum TomlData {
    Text(Seq<char>),
    Flag(bool),
    List(Seq<TomlData>),
    Table(Seq<(Seq<char>, TomlData)>),
    Other,
}

/// A TOML value. A table lists its entries, each key once.
#[derive(Debug)]
pub enum TomlNode {
    Text(String),
    Flag(bool),
    List(Vec<TomlNode>),
    Table(Vec<(String, TomlNode)>),
    /// A number or a date.
    Other,
}

impl TomlNode {
    /// The value as its model.
    pub open spec fn data(&self) -> TomlData
        decreases self,
    {
        match self {
            TomlNode::Text(s) => TomlData::Text(s@),
            TomlNode::Flag(b) => TomlData::Flag(*b),
            TomlNode::List(items) => TomlData::List(
                Seq::new(
                    items@.len(),
                    |i: int|
                        if 0 <= i < items@.len() {
                            items@[i].data()
                        } else {
                            TomlData::Other
                        },
                ),
            ),
            TomlNode::Table(entries) => TomlData::Table(
                Seq::new(
                    entries@.len(),
                    |i: int|
                        if 0 <= i < entries@.len() {
                            (entries@[i].0@, entries@[i].1.data())
                        } else {
                            (Seq::empty(), TomlData::Other)
                        },
                ),
            ),
            TomlNode::Other => TomlData::Other,
        }
    }
}

/// The value under `key` in a list of entries.
pub open spec fn entry_of(entries: Seq<(Seq<char>, TomlData)>, key: Seq<char>) -> Option<TomlData>
    decreases entries.len(),
{
    if entries.len() == 0 {
        None
    } else if entries[0].0 == key {
        Some(entries[0].1)
    } else {
        entry_of(entries.drop_first(), key)
    }
}

impl TomlData {
    /// The value under `key`; nothing has one but a table.
    pub open spec fn get(self, key: Seq<char>) -> Option<TomlData> {
        match self {
            TomlData::Table(entries) => entry_of(entries, key),
            _ => None,
        }
    }

    /// The string that the value is, if it is one.
    pub open spec fn as_text(self) -> Option<Seq<char>> {
        match self {
            TomlData::Text(s) => Some(s),
            _ => None,
        }
    }

    /// The boolean that the value is, if it is one.
    pub open spec fn as_flag(self) -> Option<bool> {
        match self {
            TomlData::Flag(b) => Some(b),
            _ => None,
        }
    }

    /// The string under `key`.
    pub open spec fn text_at(self, key: Seq<char>) -> Option<Seq<char>> {
        match self.get(key) {
            Some(v) => v.as_text(),
            None => None,
        }
    }
}

impl TomlNode {
    /// The value under `key`.
    pub fn get(&self, key: &str) -> (value: Option<&TomlNode>)
        ensures
            value is Some <==> self.data().get(key@) is Some,
            value matches Some(v) ==> self.data().get(key@) == Some(v.data()),
    {
        match self {
            TomlNode::Table(entries) => get_entry(entries, key),
            _ => None,
        }
    }

    /// The string that the value is, if it is one.
    pub fn as_text(&self) -> (text: Option<&str>)
        ensures
            text is Some <==> self.data().as_text() is Some,
            text matches Some(t) ==> self.data().as_text() == Some(t@),
    {
        match self {
            TomlNode::Text(s) => Some(s.as_str()),
            _ => None,
        }
    }

    /// The boolean that the value is, if it is one.
    pub fn as_flag(&self) -> (flag: Option<bool>)
        ensures
            flag == self.data().as_flag(),
    {
        match self {
            TomlNode::Flag(b) => Some(*b),
            _ => None,
        }
    }

    /// The string under `key`.
    pub fn text_at(&self, key: &str) -> (text: Option<&str>)
        ensures
            text is Some <==> self.data().text_at(key@) is Some,
            text matches Some(t) ==> self.data().text_at(key@) == Some(t@),
    {
        match self.get(key) {
            Some(v) => v.as_text(),
            None => None,
        }
    }
}

fn get_entry<'a>(entries: &'a Vec<(String, TomlNode)>, key: &str) -> (value: Option<&'a TomlNode>)
    ensures
        value is Some <==> TomlNode::Table(*entries).data().get(key@) is Some,
        value matches Some(v) ==> TomlNode::Table(*entries).data().get(key@) == Some(v.data()),
{
    let ghost all = TomlNode::Table(*entries).data()->Table_0;
    assert(all.len() == entries@.len());
    assert(all.skip(0) =~= all);
    for i in 0..entries.len()
        invariant
            all == TomlNode::Table(*entries).data()->Table_0,
            all.len() == entries@.len(),
            entry_of(all, key@) == entry_of(all.skip(i as int), key@),
    {
        assert(all.skip(i as int)[0] == all[i as int]);
        assert(all[i as int] == (entries@[i as int].0@, entries@[i as int].1.data()));
        assert(all.skip(i as int).drop_first() =~= all.skip(i + 1));
        if text_eq(entries[i].0.as_str(), key) {
            return Some(&entries[i].1);
        }
    }
    None
}

/// The value that a `toml::Value` holds.
pub uninterp spec fn value_data(value: toml::Value) -> TomlData;

/// A `toml::Value` taken apart by its variant.
enum ValueParts<'a> {
    Text(&'a String),
    Flag(bool),
    List(&'a Vec<toml::Value>),
    Table(Vec<(&'a String, &'a toml::Value)>),
    Other,
}

/// The variants of `toml::Value`, with `toml::map::Map::iter` for the entries
/// of a table. Claims that a value holds what its variant holds.
#[verifier::external_body]
fn value_parts<'a>(value: &'a toml::Value) -> (parts: ValueParts<'a>)
    ensures
        match parts {
            ValueParts::Text(s) => value_data(*value) == TomlData::Text(s@),
            ValueParts::Flag(b) => value_data(*value) == TomlData::Flag(b),
            ValueParts::List(items) => value_data(*value) == TomlData::List(
                items@.map_values(|v: toml::Value| value_data(v)),
            ),
            ValueParts::Table(entries) => value_data(*value) == TomlData::Table(
                entries@.map_values(|e: (&String, &toml::Value)| (e.0@, value_data(*e.1))),
            ),
            ValueParts::Other => value_data(*value) == TomlData::Other,
        },
{
    match value {
        toml::Value::String(s) => ValueParts::Text(s),
        toml::Value::Boolean(b) => ValueParts::Flag(*b),
        toml::Value::Array(items) => ValueParts::List(items),
        toml::Value::Table(table) => ValueParts::Table(table.iter().collect()),
        toml::Value::Integer(_) => ValueParts::Other,
        toml::Value::Float(_) => ValueParts::Other,
        toml::Value::Datetime(_) => ValueParts::Other,
    }
}

/// The plain value that a `toml::Value` holds.
pub fn node_from(value: &toml::Value) -> (node: TomlNode)
    ensures
        node.data() == value_data(*value),
    decreases value_data(*value),
{
    match value_parts(value) {
        ValueParts::Text(s) => TomlNode::Text(s.clone()),
        ValueParts::Flag(b) => TomlNode::Flag(b),
        ValueParts::List(items) => {
            let mut nodes: Vec<TomlNode> = Vec::new();
            let ghost all = value_data(*value)->List_0;
            for i in 0..items.len()
                invariant
                    value_data(*value) == TomlData::List(all),
                    all == items@.map_values(|v: toml::Value| value_data(v)),
                    nodes@.len() == i,
                    forall|j: int| 0 <= j < i ==> (#[trigger] nodes@[j]).data() == all[j],
            {
                assert(all[i as int] == value_data(items@[i as int]));
                assert(decreases_to!(value_data(*value) => value_data(*value)->List_0[i as int]));
                nodes.push(node_from(&items[i]));
            }
            let node = TomlNode::List(nodes);
            assert(node.data()->List_0 =~= all);
            node
        },
        ValueParts::Table(entries) => {
            let mut nodes: Vec<(String, TomlNode)> = Vec::new();
            let ghost all = value_data(*value)->Table_0;
            for i in 0..entries.len()
                invariant
                    value_data(*value) == TomlData::Table(all),
                    all == entries@.map_values(
                        |e: (&String, &toml::Value)| (e.0@, value_data(*e.1)),
                    ),
                    nodes@.len() == i,
                    forall|j: int|
                        0 <= j < i ==> ((#[trigger] nodes@[j]).0@, nodes@[j].1.data()) == all[j],
            {
                let entry = entries[i];
                assert(all[i as int] == (entry.0@, value_data(*entry.1)));
                assert(decreases_to!(
                    value_data(*value) => value_data(*value)->Table_0[i as int].1
                ));
                nodes.push((entry.0.clone(), node_from(entry.1)));
            }
            let node = TomlNode::Table(nodes);
            assert(node.data()->Table_0 =~= all);
            node
        },
        ValueParts::Other => TomlNode::Other,
    }
}

/// What the TOML text holds, as `toml` reads it; `None` where it is no valid
/// TOML.
pub uninterp spec fn toml_document(content: Seq<char>) -> Option<TomlData>;

/// `str::parse::<toml::Table>`: reads a TOML document, which is a table.
/// Claims that what it holds depends on the text alone. What a given text
/// holds is left unsaid.
#[verifier::external_body]
fn parse_table(content: &str) -> (document: Option<toml::Value>)
    ensures
        document is Some <==> toml_document(content@) is Some,
        document matches Some(d) ==> toml_document(content@) == Some(value_data(d)),
{
    let table = content.parse::<toml::Table>().ok()?;
    Some(toml::Value::Table(table))
}

/// Reads a TOML document.
pub fn parse_toml(content: &str) -> (document: Option<TomlNode>)
    ensures
        document is Some <==> toml_document(content@) is Some,
        document matches Some(d) ==> toml_document(content@) == Some(d.data()),
{
    match parse_table(content) {
        Some(value) => Some(node_from(&value)),
        None => None,
    }
}

/// The first entry under a key gives its value, and a key without an entry
/// has none.
pub proof fn law_first_entry_under_a_key_counts(
    entries: Seq<(Seq<char>, TomlData)>,
    key: Seq<char>,
    k: int,
)
    requires
        0 <= k <= entries.len(),
        forall|j: int| 0 <= j < k ==> (#[trigger] entries[j]).0 != key,
        k < entries.len() ==> entries[k].0 == key,
    ensures
        TomlData::Table(entries).get(key) == (if k < entries.len() {
            Some(entries[k].1)
        } else {
            None
        }),
        k < entries.len() ==> (entries[k].1 matches TomlData::Text(s) ==> TomlData::Table(
            entries,
        ).text_at(key) == Some(s)),
        k == entries.len() || !(entries[k].1 is Text) ==> TomlData::Table(entries).text_at(
            key,
        ) is None,
    decreases k,
{
    if k > 0 {
        let rest = entries.drop_first();
        assert(entries[0].0 != key);
        assert forall|j: int| 0 <= j < k - 1 implies (#[trigger] rest[j]).0 != key by {
            assert(rest[j] == entries[j + 1]);
        }
        law_first_entry_under_a_key_counts(rest, key, k - 1);
    }
}

/// Nothing but a table has entries.
pub proof fn law_only_tables_have_entries(value: TomlData, key: Seq<char>)
    requires
        !(value is Table),
    ensures
        value.get(key) is None,
        value.text_at(key) is None,
{
}

} // verus!
