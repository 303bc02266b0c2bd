//! Reading the attribute dictionary of a feature: the `key=value` listing of
//! its attributes, and lookups of numbers and texts by attribute name.
use vstd::prelude::*;
use crate::pickle::{dict_get, lookup, DictEntry, PickleKey, PickleValue};
use crate::text::{
    chars_contain, chars_of, from_utf8_lossy, has_infix, i64_decimal, int_decimal, str_equal,
    utf8_lossy,
};

verus! {

broadcast use vstd::string::group_string_axioms;

/// A number read from an attribute: a float by its bit pattern, or an integer.
#[derive(Clone, Copy, Debug, PartialEq, Eq, Structural)]
pub enum Number {
    Float(u64),
    Int(i64),
}

/// Why an attribute could not be read.
#[derive(Clone, Copy, Debug, PartialEq, Eq, Structural)]
pub enum ReadFailure {
    /// A required attribute is absent (the `"!"` marker was reached).
    MissingAttribute,
    /// The attribute holds an integer too large for 64 bits.
    BigInteger,
}

/// The texts of a list of names.
pub open spec fn texts(names: Seq<&str>) -> Seq<Seq<char>> {
    names.map_values(|s: &str| s@)
}

/// The marker that ends a list of names whose attribute is required.
pub open spec fn required_marker() -> Seq<char> {
    seq!['!']
}

/// The label of an entry in an attribute listing: a text key as itself,
/// any other key by its display text.
pub open spec fn key_label(e: DictEntry) -> Seq<char> {
    match e.key {
        PickleKey::Text(s) => s@,
        _ => e.key_text@,
    }
}

/// One line of an attribute listing: `key=value` and a line break, where
/// the value is given by its debug text.
pub open spec fn attribute_line(e: DictEntry) -> Seq<char> {
    key_label(e) + seq!['='] + e.value_debug@ + seq!['\n']
}

/// The listing of all attributes, one line per entry, in entry order.
pub open spec fn attributes_listing(entries: Seq<DictEntry>) -> Seq<char>
    decreases entries.len(),
{
    if entries.len() == 0 {
        Seq::empty()
    } else {
        attributes_listing(entries.drop_last()) + attribute_line(entries.last())
    }
}

/// The attribute listing of a feature: that of its `attributes` entry when
/// it is a dictionary, else empty.
pub open spec fn feature_listing(feature: Seq<DictEntry>) -> Seq<char> {
    match lookup(feature, "attributes"@) {
        Some(PickleValue::Dict(attrs)) => attributes_listing(attrs@),
        _ => Seq::empty(),
    }
}

/// What `read_number` makes of the names from the first one on.
pub open spec fn number_reading(names: Seq<Seq<char>>, attrs: Seq<DictEntry>) -> Result<
    Number,
    ReadFailure,
>
    decreases names.len(),
{
    if names.len() == 0 {
        Ok(Number::Float(0))
    } else if names[0] == required_marker() {
        Err(ReadFailure::MissingAttribute)
    } else {
        match lookup(attrs, names[0]) {
            Some(PickleValue::Float(f)) => Ok(Number::Float(f.bits)),
            Some(PickleValue::I64(i)) => Ok(Number::Int(i)),
            Some(PickleValue::BigInt(_)) => Err(ReadFailure::BigInteger),
            _ => number_reading(names.drop_first(), attrs),
        }
    }
}

/// The text of a value, for the kinds of value that read as text:
/// `None` for the others.
pub open spec fn value_text(v: PickleValue) -> Option<Result<Seq<char>, ReadFailure>> {
    match v {
        PickleValue::Float(f) => Some(Ok(f.text@)),
        PickleValue::I64(i) => Some(Ok(int_decimal(i as int))),
        PickleValue::BigInt(_) => Some(Err(ReadFailure::BigInteger)),
        PickleValue::Text(s) => Some(Ok(s@)),
        PickleValue::Bytes(b) => Some(Ok(utf8_lossy(b@))),
        _ => None,
    }
}

/// What `read_string` makes of the names from the first one on.
pub open spec fn text_reading(names: Seq<Seq<char>>, attrs: Seq<DictEntry>) -> Result<
    Seq<char>,
    ReadFailure,
>
    decreases names.len(),
{
    if names.len() == 0 {
        Ok(Seq::empty())
    } else if names[0] == required_marker() {
        Err(ReadFailure::MissingAttribute)
    } else {
        match lookup(attrs, names[0]) {
            Some(v) => match value_text(v) {
                Some(r) => r,
                None => text_reading(names.drop_first(), attrs),
            },
            None => text_reading(names.drop_first(), attrs),
        }
    }
}

/// Some name of the list occurs in `key`.
pub open spec fn mentions_any(key: Seq<char>, names: Seq<Seq<char>>) -> bool {
    exists|j: int| 0 <= j < names.len() && has_infix(key, #[trigger] names[j])
}

/// What `read_string_containing` makes of the entries from the first one on:
/// the text of the first entry whose key's debug text mentions one of the
/// names and whose value reads as text.
pub open spec fn containing_reading(names: Seq<Seq<char>>, attrs: Seq<DictEntry>) -> Result<
    Seq<char>,
    ReadFailure,
>
    decreases attrs.len(),
{
    if attrs.len() == 0 {
        Ok(Seq::empty())
    } else if mentions_any(attrs[0].key_debug@, names) && value_text(attrs[0].value) is Some {
        value_text(attrs[0].value).unwrap()
    } else {
        containing_reading(names, attrs.drop_first())
    }
}

/// The attribute listing (`key=value` lines) of an attribute dictionary.
pub fn render_attributes(attrs: &Vec<DictEntry>) -> (r: String)
    ensures
        r@ == attributes_listing(attrs@),
{
    let mut out = String::new();
    let mut i: usize = 0;
    while i < attrs.len()
        invariant
            i <= attrs@.len(),
            out@ == attributes_listing(attrs@.take(i as int)),
        decreases attrs.len() - i,
    {
        let e = &attrs[i];
        match &e.key {
            PickleKey::Text(s) => out.append(s.as_str()),
            _ => out.append(e.key_text.as_str()),
        }
        out.append("=");
        out.append(e.value_debug.as_str());
        out.append("\n");
        proof {
            reveal_strlit("=");
            reveal_strlit("\n");
            assert(attrs@.take(i + 1).drop_last() =~= attrs@.take(i as int));
            assert(attrs@.take(i + 1).last() == attrs@[i as int]);
        }
        i = i + 1;
    }
    assert(attrs@.take(attrs@.len() as int) =~= attrs@);
    out
}

/// The attribute listing of a feature (empty without an attribute dictionary).
pub fn render_feature_attributes(feature: &Vec<DictEntry>) -> (r: String)
    ensures
        r@ == feature_listing(feature@),
{
    match dict_get(feature, "attributes") {
        Some(PickleValue::Dict(attrs)) => render_attributes(attrs),
        _ => String::new(),
    }
}

/// Reads a number under the first of the names present with a number, as
/// `read_number` does, or says why it cannot.
pub fn try_read_number(possible_names: &[&str], attribute_map: &Vec<DictEntry>) -> (r: Result<
    Number,
    ReadFailure,
>)
    ensures
        r == number_reading(texts(possible_names@), attribute_map@),
{
    let ghost all = texts(possible_names@);
    assert(all.subrange(0, all.len() as int) =~= all);
    let mut i: usize = 0;
    while i < possible_names.len()
        invariant
            i <= possible_names@.len(),
            all == texts(possible_names@),
            all.len() == possible_names@.len(),
            number_reading(all, attribute_map@) == number_reading(
                all.subrange(i as int, all.len() as int),
                attribute_map@,
            ),
        decreases possible_names.len() - i,
    {
        let name: &str = possible_names[i];
        let ghost rest = all.subrange(i as int, all.len() as int);
        assert(rest[0] == name@);
        assert(rest.drop_first() =~= all.subrange(i + 1, all.len() as int));
        proof {
            reveal_strlit("!");
            assert("!"@ =~= required_marker());
        }
        if str_equal(name, "!") {
            return Err(ReadFailure::MissingAttribute);
        }
        match dict_get(attribute_map, name) {
            Some(PickleValue::Float(f)) => {
                return Ok(Number::Float(f.bits));
            },
            Some(PickleValue::I64(v)) => {
                return Ok(Number::Int(*v));
            },
            Some(PickleValue::BigInt(_)) => {
                return Err(ReadFailure::BigInteger);
            },
            _ => {},
        }
        i = i + 1;
    }
    Ok(Number::Float(0))
}


/// Reads a number under the first of `possible_names` that the attribute
/// map holds with a number: a float, or an integer (which the caller turns
/// into a float).  No name present gives 0; a `"!"` among the names marks
/// the attribute as required.  The inputs on which reading fails are those
/// for which `try_read_number` reports a failure.
pub fn read_number(possible_names: &[&str], attribute_map: &Vec<DictEntry>) -> (r: Number)
    requires
        number_reading(texts(possible_names@), attribute_map@) is Ok,
    ensures
        Ok::<Number, ReadFailure>(r) == number_reading(texts(possible_names@), attribute_map@),
{
    match try_read_number(possible_names, attribute_map) {
        Ok(n) => n,
        Err(_) => Number::Float(0),
    }
}

/// The text of a value that reads as text, `None` for other kinds.
pub fn read_value_text(v: &PickleValue) -> (r: Option<Result<String, ReadFailure>>)
    ensures
        match (r, value_text(*v)) {
            (Some(Ok(s)), Some(Ok(t))) => s@ == t,
            (Some(Err(e)), Some(Err(f))) => e == f,
            (None, None) => true,
            _ => false,
        },
{
    match v {
        PickleValue::Float(f) => Some(Ok(f.text.clone())),
        PickleValue::I64(i) => Some(Ok(i64_decimal(*i))),
        PickleValue::BigInt(_) => Some(Err(ReadFailure::BigInteger)),
        PickleValue::Text(s) => Some(Ok(s.clone())),
        PickleValue::Bytes(b) => Some(Ok(from_utf8_lossy(b.as_slice()))),
        _ => None,
    }
}

/// Reads a text under the first of the names present with a value that
/// reads as text, as `read_string` does, or says why it cannot.
pub fn try_read_string(possible_names: &[&str], attribute_map: &Vec<DictEntry>) -> (r: Result<
    String,
    ReadFailure,
>)
    ensures
        match (r, text_reading(texts(possible_names@), attribute_map@)) {
            (Ok(s), Ok(t)) => s@ == t,
            (Err(e), Err(f)) => e == f,
            _ => false,
        },
{
    let ghost all = texts(possible_names@);
    assert(all.subrange(0, all.len() as int) =~= all);
    let mut i: usize = 0;
    while i < possible_names.len()
        invariant
            i <= possible_names@.len(),
            all == texts(possible_names@),
            all.len() == possible_names@.len(),
            text_reading(all, attribute_map@) == text_reading(
                all.subrange(i as int, all.len() as int),
                attribute_map@,
            ),
        decreases possible_names.len() - i,
    {
        let name: &str = possible_names[i];
        let ghost rest = all.subrange(i as int, all.len() as int);
        assert(rest[0] == name@);
        assert(rest.drop_first() =~= all.subrange(i + 1, all.len() as int));
        proof {
            reveal_strlit("!");
            assert("!"@ =~= required_marker());
        }
        if str_equal(name, "!") {
            return Err(ReadFailure::MissingAttribute);
        }
        match dict_get(attribute_map, name) {
            Some(v) => match read_value_text(v) {
                Some(found) => {
                    return found;
                },
                None => {},
            },
            None => {},
        }
        i = i + 1;
    }
    Ok(String::new())
}

/// Reads a text under the first of `possible_names` present with a value
/// that reads as text (a float or an integer by its decimal text, a string,
/// bytes decoded leniently); no name present gives the empty text, and a
/// `"!"` among the names marks the attribute as required.
pub fn read_string(possible_names: &[&str], attribute_map: &Vec<DictEntry>) -> (r: String)
    requires
        text_reading(texts(possible_names@), attribute_map@) is Ok,
    ensures
        Ok::<Seq<char>, ReadFailure>(r@) == text_reading(texts(possible_names@), attribute_map@),
{
    match try_read_string(possible_names, attribute_map) {
        Ok(s) => s,
        Err(_) => String::new(),
    }
}

/// Does one of the names occur in `key`?
fn mentions_any_name(key: &Vec<char>, possible_names: &[&str]) -> (r: bool)
    ensures
        r == mentions_any(key@, texts(possible_names@)),
{
    let mut j: usize = 0;
    while j < possible_names.len()
        invariant
            j <= possible_names@.len(),
            forall|k: int|
                0 <= k < j ==> !has_infix(key@, #[trigger] texts(possible_names@)[k]),
        decreases possible_names.len() - j,
    {
        let name = chars_of(possible_names[j]);
        if chars_contain(key, &name) {
            assert(texts(possible_names@)[j as int] == name@);
            return true;
        }
        j = j + 1;
    }
    false
}

/// Reads the text of the first attribute whose key's debug text contains
/// one of the names, as `read_string_containing` does, or says why it cannot.
pub fn try_read_string_containing(
    possible_names: &[&str],
    attribute_map: &Vec<DictEntry>,
) -> (r: Result<String, ReadFailure>)
    ensures
        match (r, containing_reading(texts(possible_names@), attribute_map@)) {
            (Ok(s), Ok(t)) => s@ == t,
            (Err(e), Err(f)) => e == f,
            _ => false,
        },
{
    let ghost names = texts(possible_names@);
    assert(attribute_map@.subrange(0, attribute_map@.len() as int) =~= attribute_map@);
    let mut i: usize = 0;
    while i < attribute_map.len()
        invariant
            i <= attribute_map@.len(),
            names == texts(possible_names@),
            containing_reading(names, attribute_map@) == containing_reading(
                names,
                attribute_map@.subrange(i as int, attribute_map@.len() as int),
            ),
        decreases attribute_map.len() - i,
    {
        let e = &attribute_map[i];
        let ghost rest = attribute_map@.subrange(i as int, attribute_map@.len() as int);
        assert(rest[0] == *e);
        assert(rest.drop_first() =~= attribute_map@.subrange(i + 1, attribute_map@.len() as int));
        let key = chars_of(e.key_debug.as_str());
        if mentions_any_name(&key, possible_names) {
            match read_value_text(&e.value) {
                Some(found) => {
                    return found;
                },
                None => {},
            }
        }
        i = i + 1;
    }
    Ok(String::new())
}

/// Reads the text of the first attribute whose key (by its debug text)
/// contains one of `possible_names` and whose value reads as text; no such
/// attribute gives the empty text.
pub fn read_string_containing(possible_names: &[&str], attribute_map: &Vec<DictEntry>) -> (r:
    String)
    requires
        containing_reading(texts(possible_names@), attribute_map@) is Ok,
    ensures
        Ok::<Seq<char>, ReadFailure>(r@) == containing_reading(texts(possible_names@), attribute_map@),
{
    match try_read_string_containing(possible_names, attribute_map) {
        Ok(s) => s,
        Err(_) => String::new(),
    }
}

}
