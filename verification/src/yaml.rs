//! YAML documents as plain trees.
//!
//! `serde_yaml_ng` reads the text; what it found is carried in [`Yaml`], which
//! the rest of the library walks.

use vstd::prelude::*;

use crate::text::eq;

verus! {

/// One YAML value.
#[derive(Debug, PartialEq, Eq)]
pub enum Yaml {
    Null,
    Bool(bool),
    /// A number; `Some` when it is a non-negative integer that fits 64 bits.
    Number(Option<u64>),
    Text(String),
    Sequence(Vec<Yaml>),
    /// Entries in document order.
    Mapping(Vec<(Yaml, Yaml)>),
    /// A value under a `!Tag`.
    Tagged(Box<Yaml>),
}

/// `serde_yaml_ng::Value`, carried from the parser to its plain form.
#[verifier::external_type_specification]
#[verifier::external_body]
pub struct ExValue(serde_yaml_ng::Value);

/// The document that `serde_yaml_ng::from_str` reads from `body`; `None` when
/// it rejects it.
pub uninterp spec fn yaml_document(body: Seq<char>) -> Option<Yaml>;

/// The plain form of a `serde_yaml_ng::Value`, variant by variant. A number is
/// taken through `Number::as_u64`; the name of a tag is dropped.
#[verifier::external_body]
fn plain(value: serde_yaml_ng::Value) -> (r: Yaml) {
    match value {
        serde_yaml_ng::Value::Null => Yaml::Null,
        serde_yaml_ng::Value::Bool(b) => Yaml::Bool(b),
        serde_yaml_ng::Value::Number(n) => Yaml::Number(n.as_u64()),
        serde_yaml_ng::Value::String(s) => Yaml::Text(s),
        serde_yaml_ng::Value::Sequence(items) => Yaml::Sequence(items.into_iter().map(plain).collect()),
        serde_yaml_ng::Value::Mapping(map) => {
            Yaml::Mapping(map.into_iter().map(|(k, v)| (plain(k), plain(v))).collect())
        },
        serde_yaml_ng::Value::Tagged(tagged) => Yaml::Tagged(Box::new(plain(tagged.value))),
    }
}

/// `serde_yaml_ng::from_str`, into a generic value: the result depends on the
/// text alone, and an error says only that the text is not YAML.
#[verifier::external_body]
fn read(body: &str) -> (r: Option<Yaml>)
    ensures
        r == yaml_document(body@),
{
    serde_yaml_ng::from_str::<serde_yaml_ng::Value>(body).ok().map(plain)
}

/// Reads a YAML document; `None` when the text is not YAML.
pub fn parse(body: &str) -> (r: Option<Yaml>)
    ensures
        r == yaml_document(body@),
{
    read(body)
}

/// The value under any number of tags.
pub open spec fn untag_of(y: Yaml) -> Yaml
    decreases y,
{
    match y {
        Yaml::Tagged(inner) => untag_of(*inner),
        other => other,
    }
}

/// The text of a value, if it is text.
pub open spec fn text_of(y: Yaml) -> Option<Seq<char>> {
    match untag_of(y) {
        Yaml::Text(s) => Some(s@),
        _ => None,
    }
}

/// The number of a value, if it is a non-negative integer.
pub open spec fn number_of(y: Yaml) -> Option<u64> {
    match untag_of(y) {
        Yaml::Number(n) => n,
        _ => None,
    }
}

/// Is this key the plain text `key`?
pub open spec fn is_text_key(k: Yaml, key: Seq<char>) -> bool {
    match k {
        Yaml::Text(s) => s@ == key,
        _ => false,
    }
}

/// Is this key the number `n`?
pub open spec fn is_number_key(k: Yaml, n: u64) -> bool {
    k == Yaml::Number(Some(n))
}

/// The value of the first entry under the text `key`.
pub open spec fn entry_of(entries: Seq<(Yaml, Yaml)>, key: Seq<char>) -> Option<Yaml>
    decreases entries.len(),
{
    if entries.len() == 0 {
        None
    } else if is_text_key(entries[0].0, key) {
        Some(entries[0].1)
    } else {
        entry_of(entries.drop_first(), key)
    }
}

/// The value of the first entry under the number `n`.
pub open spec fn numbered_of(entries: Seq<(Yaml, Yaml)>, n: u64) -> Option<Yaml>
    decreases entries.len(),
{
    if entries.len() == 0 {
        None
    } else if is_number_key(entries[0].0, n) {
        Some(entries[0].1)
    } else {
        numbered_of(entries.drop_first(), n)
    }
}

/// `y[key]`: what a mapping holds under a text key.
pub open spec fn field_of(y: Yaml, key: Seq<char>) -> Option<Yaml> {
    match untag_of(y) {
        Yaml::Mapping(entries) => entry_of(entries@, key),
        _ => None,
    }
}

/// [`field_of`] on a value that may be missing.
pub open spec fn maybe_field(y: Option<Yaml>, key: Seq<char>) -> Option<Yaml> {
    match y {
        Some(v) => field_of(v, key),
        None => None,
    }
}

/// `y[0]`: the first item of a sequence, or what a mapping holds under 0.
pub open spec fn first_item_of(y: Yaml) -> Option<Yaml> {
    match untag_of(y) {
        Yaml::Sequence(items) => if items@.len() > 0 {
            Some(items@[0])
        } else {
            None
        },
        Yaml::Mapping(entries) => numbered_of(entries@, 0),
        _ => None,
    }
}

/// The value that a borrowed result stands for.
pub open spec fn plain_ref(r: Option<&Yaml>) -> Option<Yaml> {
    match r {
        Some(v) => Some(*v),
        None => None,
    }
}

impl Yaml {
    /// The value under any number of tags.
    pub fn untag(&self) -> (r: &Yaml)
        ensures
            *r == untag_of(*self),
        decreases self,
    {
        match self {
            Yaml::Tagged(inner) => inner.untag(),
            _ => self,
        }
    }

    /// The text of this value, if it is text.
    pub fn as_str(&self) -> (r: Option<&String>)
        ensures
            match r {
                Some(s) => text_of(*self) == Some(s@),
                None => text_of(*self) is None,
            },
    {
        match self.untag() {
            Yaml::Text(s) => Some(s),
            _ => None,
        }
    }

    /// The number of this value, if it is a non-negative integer.
    pub fn as_u64(&self) -> (r: Option<u64>)
        ensures
            r == number_of(*self),
    {
        match self.untag() {
            Yaml::Number(n) => *n,
            _ => None,
        }
    }

    /// What this mapping holds under a text key.
    pub fn field(&self, key: &str) -> (r: Option<&Yaml>)
        ensures
            plain_ref(r) == field_of(*self, key@),
    {
        match self.untag() {
            Yaml::Mapping(entries) => entry(entries, key),
            _ => None,
        }
    }

    /// The first item of this sequence (or what this mapping holds under 0).
    pub fn first_item(&self) -> (r: Option<&Yaml>)
        ensures
            plain_ref(r) == first_item_of(*self),
    {
        match self.untag() {
            Yaml::Sequence(items) => if items.len() > 0 {
                Some(&items[0])
            } else {
                None
            },
            Yaml::Mapping(entries) => numbered(entries, 0),
            _ => None,
        }
    }
}

/// The value of the first entry under the text `key`.
pub fn entry<'a>(entries: &'a Vec<(Yaml, Yaml)>, key: &str) -> (r: Option<&'a Yaml>)
    ensures
        plain_ref(r) == entry_of(entries@, key@),
{
    let mut i: usize = 0;
    assert(entries@.skip(0) =~= entries@);
    while i < entries.len()
        invariant
            i <= entries@.len(),
            entry_of(entries@.skip(i as int), key@) == entry_of(entries@, key@),
        decreases entries@.len() - i,
    {
        let ghost rest = entries@.skip(i as int);
        assert(rest[0] == entries@[i as int]);
        let found = match &entries[i].0 {
            Yaml::Text(s) => eq(s.as_str(), key),
            _ => false,
        };
        if found {
            return Some(&entries[i].1);
        }
        assert(rest.drop_first() =~= entries@.skip(i + 1));
        i += 1;
    }
    None
}

/// The value of the first entry under the number `n`.
fn numbered<'a>(entries: &'a Vec<(Yaml, Yaml)>, n: u64) -> (r: Option<&'a Yaml>)
    ensures
        plain_ref(r) == numbered_of(entries@, n),
{
    let mut i: usize = 0;
    assert(entries@.skip(0) =~= entries@);
    while i < entries.len()
        invariant
            i <= entries@.len(),
            numbered_of(entries@.skip(i as int), n) == numbered_of(entries@, n),
        decreases entries@.len() - i,
    {
        let ghost rest = entries@.skip(i as int);
        assert(rest[0] == entries@[i as int]);
        let found = match &entries[i].0 {
            Yaml::Number(Some(m)) => *m == n,
            _ => false,
        };
        if found {
            return Some(&entries[i].1);
        }
        assert(rest.drop_first() =~= entries@.skip(i + 1));
        i += 1;
    }
    None
}

/// What a mapping holds under a key is the value of the first entry with that
/// key, and nothing when there is none. Tags make no difference.
pub proof fn law_first_entry_counts(entries: Seq<(Yaml, Yaml)>, key: Seq<char>, i: int)
    ensures
        0 <= i < entries.len() && is_text_key(entries[i].0, key) && (forall|j: int|
            0 <= j < i ==> !is_text_key((#[trigger] entries[j]).0, key)) ==> entry_of(entries, key)
            == Some(entries[i].1),
        (forall|j: int| 0 <= j < entries.len() ==> !is_text_key((#[trigger] entries[j]).0, key))
            ==> entry_of(entries, key) is None,
    decreases entries.len(),
{
    if entries.len() > 0 {
        let rest = entries.drop_first();
        law_first_entry_counts(rest, key, i - 1);
        if 0 < i < entries.len() {
            assert(rest[i - 1] == entries[i]);
        }
        assert forall|j: int| 0 <= j < rest.len() implies #[trigger] rest[j] == entries[j + 1] by {
        }
        if forall|j: int| 0 <= j < i ==> !is_text_key((#[trigger] entries[j]).0, key) {
            assert forall|j: int| 0 <= j < i - 1 && j < rest.len() implies !is_text_key(
                (#[trigger] rest[j]).0,
                key,
            ) by {
                assert(rest[j] == entries[j + 1]);
            }
            if 0 < i < entries.len() {
                assert forall|j: int| 0 <= j < i - 1 implies !is_text_key(
                    (#[trigger] rest[j]).0,
                    key,
                ) by {
                    assert(rest[j] == entries[j + 1]);
                }
            }
        }
    }
}

/// A key is text that reads the same; a tag on a value hides nothing, and the
/// first item of a list is its first.
pub proof fn law_values_are_read(y: Box<Yaml>, key: Seq<char>, s: String, items: Vec<Yaml>, n: u64)
    ensures
        text_of(Yaml::Tagged(y)) == text_of(*y),
        number_of(Yaml::Tagged(y)) == number_of(*y),
        field_of(Yaml::Tagged(y), key) == field_of(*y, key),
        first_item_of(Yaml::Tagged(y)) == first_item_of(*y),
        text_of(Yaml::Text(s)) == Some(s@),
        number_of(Yaml::Number(Some(n))) == Some(n),
        text_of(Yaml::Number(Some(n))) is None,
        is_text_key(Yaml::Text(s), key) <==> s@ == key,
        items@.len() > 0 ==> first_item_of(Yaml::Sequence(items)) == Some(items@[0]),
        items@.len() == 0 ==> first_item_of(Yaml::Sequence(items)) is None,
{
    reveal_with_fuel(untag_of, 2);
}

} // verus!
