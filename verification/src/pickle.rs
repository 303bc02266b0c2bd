//! A plain model of the values that a pickle file holds (Python's builtin
//! values), as the extraction logic reads them.
//!
//! Floating-point numbers are carried by their IEEE-754 bit pattern together
//! with the text by which they are displayed; the library never computes with
//! them.  A dictionary is the sequence of its entries in key order, and each
//! entry carries, besides its key and value, the texts by which the key and
//! the value are displayed (`Display` of the key, `Debug` of the key and of
//! the value), since the extraction rules are stated over those texts.
use vstd::prelude::*;
use crate::text::{chars_of, str_equal};

verus! {

broadcast use vstd::string::group_string_axioms;

/// A floating-point number: its bit pattern and its display text.
pub struct PickleFloat {
    pub bits: u64,
    pub text: String,
}

/// A value that may stand as a dictionary key or a set element.
pub enum PickleKey {
    NoneKey,
    Bool(bool),
    I64(i64),
    /// An integer that does not fit in 64 bits, by its decimal text.
    BigInt(String),
    Float(PickleFloat),
    Bytes(Vec<u8>),
    Text(String),
    Tuple(Vec<PickleKey>),
    FrozenSetOf(Vec<PickleKey>),
}

/// One entry of a dictionary.
pub struct DictEntry {
    pub key: PickleKey,
    /// How the key is displayed (`Display`).
    pub key_text: String,
    /// How the key is debug-printed (`Debug`).
    pub key_debug: String,
    pub value: PickleValue,
    /// How the value is debug-printed (`Debug`).
    pub value_debug: String,
}

/// A value of the data sea.
pub enum PickleValue {
    NoneValue,
    Bool(bool),
    I64(i64),
    /// An integer that does not fit in 64 bits, by its decimal text.
    BigInt(String),
    Float(PickleFloat),
    Bytes(Vec<u8>),
    Text(String),
    List(Vec<PickleValue>),
    Tuple(Vec<PickleValue>),
    SetOf(Vec<PickleKey>),
    FrozenSetOf(Vec<PickleKey>),
    Dict(Vec<DictEntry>),
}

/// The key is the text `name`.
pub open spec fn key_is(key: PickleKey, name: Seq<char>) -> bool {
    match key {
        PickleKey::Text(s) => s@ == name,
        _ => false,
    }
}

/// The value stored under the text key `name`, if any (the first such entry).
pub open spec fn lookup(entries: Seq<DictEntry>, name: Seq<char>) -> Option<PickleValue>
    decreases entries.len(),
{
    if entries.len() == 0 {
        None
    } else if key_is(entries[0].key, name) {
        Some(entries[0].value)
    } else {
        lookup(entries.drop_first(), name)
    }
}

proof fn lemma_lookup_index(entries: Seq<DictEntry>, name: Seq<char>, i: int)
    requires
        0 <= i <= entries.len(),
        forall|j: int| 0 <= j < i ==> !key_is(#[trigger] entries[j].key, name),
    ensures
        lookup(entries, name) == lookup(entries.subrange(i, entries.len() as int), name),
    decreases i,
{
    if i > 0 {
        lemma_lookup_index(entries, name, i - 1);
        let rest = entries.subrange(i - 1, entries.len() as int);
        assert(rest.drop_first() =~= entries.subrange(i, entries.len() as int));
        assert(rest[0] == entries[i - 1]);
    } else {
        assert(entries.subrange(0, entries.len() as int) =~= entries);
    }
}

/// Is the key the text whose characters are `name`?
pub fn key_matches(key: &PickleKey, name: &str) -> (r: bool)
    ensures
        r == key_is(*key, name@),
{
    match key {
        PickleKey::Text(s) => str_equal(s.as_str(), name),
        _ => false,
    }
}

/// The value stored in a dictionary under the text key `name`
/// (what `BTreeMap::get` gives for a string key).
pub fn dict_get<'a>(entries: &'a Vec<DictEntry>, name: &str) -> (r: Option<&'a PickleValue>)
    ensures
        match r {
            Some(v) => lookup(entries@, name@) == Some(*v),
            None => lookup(entries@, name@) is None,
        },
{
    let mut i: usize = 0;
    while i < entries.len()
        invariant
            i <= entries@.len(),
            forall|j: int| 0 <= j < i ==> !key_is(#[trigger] entries@[j].key, name@),
        decreases entries.len() - i,
    {
        if key_matches(&entries[i].key, name) {
            proof {
                lemma_lookup_index(entries@, name@, i as int);
            }
            return Some(&entries[i].value);
        }
        i = i + 1;
    }
    proof {
        lemma_lookup_index(entries@, name@, i as int);
    }
    None
}

}
