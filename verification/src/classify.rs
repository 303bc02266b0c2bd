//! The rules that decide, from a feature's attributes, whether it produces
//! or consumes a product, and which product.
use vstd::prelude::*;
use crate::pickle::{DictEntry, PickleKey, PickleValue};
use crate::text::{chars_contain, chars_end_with, chars_of, has_infix, has_suffix, lowercase, to_lowercase};

verus! {

broadcast use vstd::string::group_string_axioms;

/// A product that a facility handles.
#[derive(Clone, Copy, Debug, PartialEq, Eq, Structural)]
pub enum Fuel {
    NaturalGas,
    Petroleum,
}

/// The name of a product, as the output records it.
pub open spec fn fuel_name(f: Fuel) -> Seq<char> {
    match f {
        Fuel::NaturalGas => "natural gas"@,
        Fuel::Petroleum => "petroleum"@,
    }
}

/// The name of a product, as the output records it.
pub fn fuel_string(f: Fuel) -> (r: String)
    ensures
        r@ == fuel_name(f),
{
    match f {
        Fuel::NaturalGas => String::from_str("natural gas"),
        Fuel::Petroleum => String::from_str("petroleum"),
    }
}

/// The key is a text ending in `_MW` or `_mw` (a power rating).
pub open spec fn key_rates_power(k: PickleKey) -> bool {
    match k {
        PickleKey::Text(s) => has_suffix(s@, "_MW"@) || has_suffix(s@, "_mw"@),
        _ => false,
    }
}

/// The value is a text ending in `MW` or `mw`.
pub open spec fn value_rates_power(v: PickleValue) -> bool {
    match v {
        PickleValue::Text(s) => has_suffix(s@, "MW"@) || has_suffix(s@, "mw"@),
        _ => false,
    }
}

/// Some attribute key rates power: the feature receives fuel to make power.
pub open spec fn has_power_key(attrs: Seq<DictEntry>) -> bool {
    exists|i: int| 0 <= i < attrs.len() && key_rates_power(#[trigger] attrs[i].key)
}

/// Some attribute key or text value rates power.
pub open spec fn mentions_power(attrs: Seq<DictEntry>) -> bool {
    exists|i: int|
        0 <= i < attrs.len() && (key_rates_power(#[trigger] attrs[i].key) || value_rates_power(
            attrs[i].value,
        ))
}

/// The lower-cased debug text of an attribute's value.
pub open spec fn lowered(e: DictEntry) -> Seq<char> {
    lowercase(e.value_debug@)
}

/// The text contains all three words.
pub open spec fn mentions_all(t: Seq<char>, a: Seq<char>, b: Seq<char>, c: Seq<char>) -> bool {
    has_infix(t, a) && has_infix(t, b) && has_infix(t, c)
}

/// The attribute describes a gas processing plant.
pub open spec fn names_gas_plant(e: DictEntry) -> bool {
    mentions_all(lowered(e), "gas"@, "process"@, "plant"@)
}

/// The attribute describes a petroleum power plant.
pub open spec fn names_petroleum_plant(e: DictEntry) -> bool {
    mentions_all(lowered(e), "petroleum"@, "power"@, "plant"@)
}

/// The attribute describes a wastewater plant or a petroleum product terminal.
pub open spec fn names_petroleum_sink(e: DictEntry) -> bool {
    ||| has_infix(lowered(e), "wastewater"@) && has_infix(lowered(e), "plant"@)
    ||| has_infix(lowered(e), "petroleumproduct_terminals"@)
}

/// Some attribute describes a gas processing plant.
pub open spec fn has_gas_plant(attrs: Seq<DictEntry>) -> bool {
    exists|i: int| 0 <= i < attrs.len() && names_gas_plant(#[trigger] attrs[i])
}

/// Some attribute describes a wastewater plant or a petroleum terminal.
pub open spec fn has_petroleum_sink(attrs: Seq<DictEntry>) -> bool {
    exists|i: int| 0 <= i < attrs.len() && names_petroleum_sink(#[trigger] attrs[i])
}

/// The attributes describe a producer: a gas processing plant with no key
/// rating power.
pub open spec fn is_producer(attrs: Seq<DictEntry>) -> bool {
    !has_power_key(attrs) && has_gas_plant(attrs)
}

/// The fuel of a power plant: given by the last attribute that describes a
/// petroleum power plant or a gas processing plant (the former when one
/// attribute describes both).
pub open spec fn plant_fuel(attrs: Seq<DictEntry>) -> Option<Fuel>
    decreases attrs.len(),
{
    if attrs.len() == 0 {
        None
    } else if names_petroleum_plant(attrs.last()) {
        Some(Fuel::Petroleum)
    } else if names_gas_plant(attrs.last()) {
        Some(Fuel::NaturalGas)
    } else {
        plant_fuel(attrs.drop_last())
    }
}

/// The product that a facility with these attributes consumes, if any: a
/// power plant burns its fuel; otherwise wastewater plants and petroleum
/// terminals take petroleum.
pub open spec fn consumed_fuel(attrs: Seq<DictEntry>) -> Option<Fuel> {
    if mentions_power(attrs) && plant_fuel(attrs) is Some {
        plant_fuel(attrs)
    } else if has_petroleum_sink(attrs) {
        Some(Fuel::Petroleum)
    } else {
        None
    }
}

/// Does the key rate power?
fn key_rates_power_exec(k: &PickleKey) -> (r: bool)
    ensures
        r == key_rates_power(*k),
{
    match k {
        PickleKey::Text(s) => {
            let t = chars_of(s.as_str());
            chars_end_with(&t, &chars_of("_MW")) || chars_end_with(&t, &chars_of("_mw"))
        },
        _ => false,
    }
}

/// Does the value rate power?
fn value_rates_power_exec(v: &PickleValue) -> (r: bool)
    ensures
        r == value_rates_power(*v),
{
    match v {
        PickleValue::Text(s) => {
            let t = chars_of(s.as_str());
            chars_end_with(&t, &chars_of("MW")) || chars_end_with(&t, &chars_of("mw"))
        },
        _ => false,
    }
}

/// Does some attribute key rate power?
pub fn has_power_key_exec(attrs: &Vec<DictEntry>) -> (r: bool)
    ensures
        r == has_power_key(attrs@),
{
    let mut i: usize = 0;
    while i < attrs.len()
        invariant
            i <= attrs@.len(),
            forall|j: int| 0 <= j < i ==> !key_rates_power(#[trigger] attrs@[j].key),
        decreases attrs.len() - i,
    {
        if key_rates_power_exec(&attrs[i].key) {
            return true;
        }
        i = i + 1;
    }
    false
}

/// Does some attribute key or text value rate power?
pub fn mentions_power_exec(attrs: &Vec<DictEntry>) -> (r: bool)
    ensures
        r == mentions_power(attrs@),
{
    let mut i: usize = 0;
    while i < attrs.len()
        invariant
            i <= attrs@.len(),
            forall|j: int|
                0 <= j < i ==> !(key_rates_power(#[trigger] attrs@[j].key) || value_rates_power(
                    attrs@[j].value,
                )),
        decreases attrs.len() - i,
    {
        if key_rates_power_exec(&attrs[i].key) || value_rates_power_exec(&attrs[i].value) {
            return true;
        }
        i = i + 1;
    }
    false
}

/// The lower-cased debug text of an attribute's value, as characters.
fn lowered_exec(e: &DictEntry) -> (r: Vec<char>)
    ensures
        r@ == lowered(*e),
{
    chars_of(to_lowercase(e.value_debug.as_str()).as_str())
}

/// Does the text contain all three words?
fn mentions_all_exec(t: &Vec<char>, a: &str, b: &str, c: &str) -> (r: bool)
    ensures
        r == mentions_all(t@, a@, b@, c@),
{
    chars_contain(t, &chars_of(a)) && chars_contain(t, &chars_of(b)) && chars_contain(
        t,
        &chars_of(c),
    )
}

/// Does some attribute describe a gas processing plant?
pub fn has_gas_plant_exec(attrs: &Vec<DictEntry>) -> (r: bool)
    ensures
        r == has_gas_plant(attrs@),
{
    let mut i: usize = 0;
    while i < attrs.len()
        invariant
            i <= attrs@.len(),
            forall|j: int| 0 <= j < i ==> !names_gas_plant(#[trigger] attrs@[j]),
        decreases attrs.len() - i,
    {
        let l = lowered_exec(&attrs[i]);
        if mentions_all_exec(&l, "gas", "process", "plant") {
            return true;
        }
        i = i + 1;
    }
    false
}

/// Does some attribute describe a wastewater plant or a petroleum terminal?
pub fn has_petroleum_sink_exec(attrs: &Vec<DictEntry>) -> (r: bool)
    ensures
        r == has_petroleum_sink(attrs@),
{
    let mut i: usize = 0;
    while i < attrs.len()
        invariant
            i <= attrs@.len(),
            forall|j: int| 0 <= j < i ==> !names_petroleum_sink(#[trigger] attrs@[j]),
        decreases attrs.len() - i,
    {
        let l = lowered_exec(&attrs[i]);
        if (chars_contain(&l, &chars_of("wastewater")) && chars_contain(&l, &chars_of("plant")))
            || chars_contain(&l, &chars_of("petroleumproduct_terminals")) {
            return true;
        }
        i = i + 1;
    }
    false
}

/// The fuel of a power plant, as `plant_fuel` states it.
pub fn plant_fuel_exec(attrs: &Vec<DictEntry>) -> (r: Option<Fuel>)
    ensures
        r == plant_fuel(attrs@),
{
    let mut fuel: Option<Fuel> = None;
    let mut i: usize = 0;
    while i < attrs.len()
        invariant
            i <= attrs@.len(),
            fuel == plant_fuel(attrs@.take(i as int)),
        decreases attrs.len() - i,
    {
        let l = lowered_exec(&attrs[i]);
        if mentions_all_exec(&l, "gas", "process", "plant") {
            fuel = Some(Fuel::NaturalGas);
        }
        if mentions_all_exec(&l, "petroleum", "power", "plant") {
            fuel = Some(Fuel::Petroleum);
        }
        proof {
            let p = attrs@.take(i + 1);
            assert(p.drop_last() =~= attrs@.take(i as int));
            assert(p.last() == attrs@[i as int]);
        }
        i = i + 1;
    }
    assert(attrs@.take(attrs@.len() as int) =~= attrs@);
    fuel
}

/// Whether a facility with these attributes produces natural gas.
pub fn is_producer_exec(attrs: &Vec<DictEntry>) -> (r: bool)
    ensures
        r == is_producer(attrs@),
{
    !has_power_key_exec(attrs) && has_gas_plant_exec(attrs)
}

/// The product consumed by a facility with these attributes, if any.
pub fn consumed_fuel_exec(attrs: &Vec<DictEntry>) -> (r: Option<Fuel>)
    ensures
        r == consumed_fuel(attrs@),
{
    if mentions_power_exec(attrs) {
        let fuel = plant_fuel_exec(attrs);
        if fuel.is_some() {
            return fuel;
        }
    }
    if has_petroleum_sink_exec(attrs) {
        Some(Fuel::Petroleum)
    } else {
        None
    }
}

}
