//! Properties that hold of every input.
use vstd::prelude::*;
use crate::attributes::{
    attributes_listing, containing_reading, feature_listing, mentions_any, number_reading,
    required_marker, text_reading, Number, ReadFailure,
};
use crate::classify::plant_fuel;
use crate::classify::{fuel_name, Fuel};
use crate::data_mgmr::{
    facilities_of, facilities_of_entries, facilities_of_items, feature_facility, feature_lines,
    coordinate_point, coordinate_points, path_points, join, lines_of, lines_of_entries, lines_of_items, path_line, paths_lines, points_of,
    points_of_entries, points_of_items, FacilityView, PointView, Role,
};
use crate::gis_structs::LineView;
use crate::pickle::{lookup, DictEntry, PickleKey, PickleValue};
use crate::text::{has_infix, has_suffix, int_decimal, lowercase, utf8_lossy};

verus! {

/// A line that can be drawn: at least two points, and not from a railroad.
pub open spec fn drawable(l: LineView) -> bool {
    l.1.len() >= 2 && !has_infix(l.0, "Railroad"@)
}

/// All lines of a sequence are drawable.
pub open spec fn all_drawable(s: Seq<LineView>) -> bool {
    forall|i: int| 0 <= i < s.len() ==> drawable(#[trigger] s[i])
}

proof fn lemma_concat_drawable(a: Seq<LineView>, b: Seq<LineView>)
    requires
        all_drawable(a),
        all_drawable(b),
    ensures
        all_drawable(a + b),
{
    assert forall|i: int| 0 <= i < (a + b).len() implies drawable(#[trigger] (a + b)[i]) by {
        if i < a.len() {
            assert((a + b)[i] == a[i]);
        } else {
            assert((a + b)[i] == b[i - a.len()]);
        }
    }
}

proof fn lemma_paths_drawable(msg: Seq<char>, paths: Seq<PickleValue>)
    requires
        !has_infix(msg, "Railroad"@),
    ensures
        all_drawable(paths_lines(msg, paths)),
    decreases paths.len(),
{
    if paths.len() > 0 {
        lemma_paths_drawable(msg, paths.drop_last());
        let last = path_line(msg, paths.last());
        assert(all_drawable(last));
        lemma_concat_drawable(paths_lines(msg, paths.drop_last()), last);
    }
}

proof fn lemma_lines_drawable(v: PickleValue)
    ensures
        all_drawable(lines_of(v)),
    decreases v,
{
    match v {
        PickleValue::Dict(entries) => match lookup(entries@, "geometry"@) {
            Some(g) => {
                match g {
                    PickleValue::Dict(gs) => match lookup(gs@, "paths"@) {
                        Some(PickleValue::List(paths)) => {
                            let msg = crate::attributes::feature_listing(entries@);
                            if !has_infix(msg, "Railroad"@) {
                                lemma_paths_drawable(msg, paths@);
                            }
                        },
                        _ => {},
                    },
                    _ => {},
                }
                assert(all_drawable(feature_lines(entries@, g)));
            },
            None => lemma_entries_lines_drawable(entries@),
        },
        PickleValue::List(items) => lemma_items_lines_drawable(items@),
        _ => {},
    }
}

proof fn lemma_entries_lines_drawable(entries: Seq<DictEntry>)
    ensures
        all_drawable(lines_of_entries(entries)),
    decreases entries,
{
    if entries.len() > 0 {
        lemma_entries_lines_drawable(entries.drop_last());
        lemma_lines_drawable(entries.last().value);
        lemma_concat_drawable(
            lines_of_entries(entries.drop_last()),
            lines_of(entries.last().value),
        );
    }
}

proof fn lemma_items_lines_drawable(items: Seq<PickleValue>)
    ensures
        all_drawable(lines_of_items(items)),
    decreases items,
{
    if items.len() > 0 {
        lemma_items_lines_drawable(items.drop_last());
        lemma_lines_drawable(items.last());
        lemma_concat_drawable(lines_of_items(items.drop_last()), lines_of(items.last()));
    }
}

/// Every line that `get_all_lines` gives has at least two points, and no
/// line carries an attribute listing that mentions `Railroad`.
pub proof fn law_lines_are_drawable(data_sea: PickleValue)
    ensures
        forall|i: int|
            0 <= i < lines_of(data_sea).len() ==> (#[trigger] lines_of(data_sea)[i]).1.len() >= 2
                && !has_infix(lines_of(data_sea)[i].0, "Railroad"@),
{
    lemma_lines_drawable(data_sea);
    assert forall|i: int| 0 <= i < lines_of(data_sea).len() implies (#[trigger] lines_of(
        data_sea,
    )[i]).1.len() >= 2 && !has_infix(lines_of(data_sea)[i].0, "Railroad"@) by {
        assert(drawable(lines_of(data_sea)[i]));
    }
}


/// The product that a facility record names suits the role: natural gas
/// for a producer; natural gas or petroleum for a consumer.
pub open spec fn product_suits(role: Role, f: FacilityView) -> bool {
    ||| f.3 == fuel_name(Fuel::NaturalGas)
    ||| role == Role::Consumer && f.3 == fuel_name(Fuel::Petroleum)
}

/// Some point record lies at the facility's latitude and longitude.
pub open spec fn located_in(f: FacilityView, points: Seq<PointView>) -> bool {
    exists|j: int| 0 <= j < points.len() && #[trigger] points[j].0 == f.0 && points[j].1 == f.1
}

/// Every facility record suits its role and lies at some point record.
pub open spec fn facilities_sound(role: Role, fs: Seq<FacilityView>, points: Seq<PointView>) -> bool {
    forall|i: int|
        0 <= i < fs.len() ==> product_suits(role, #[trigger] fs[i]) && located_in(fs[i], points)
}

/// The outcome, if a success, is sound against the points.
pub open spec fn outcome_sound(
    role: Role,
    r: Result<Seq<FacilityView>, ReadFailure>,
    points: Seq<PointView>,
) -> bool {
    match r {
        Ok(fs) => facilities_sound(role, fs, points),
        Err(_) => true,
    }
}

proof fn lemma_join_sound(
    role: Role,
    a: Result<Seq<FacilityView>, ReadFailure>,
    b: Result<Seq<FacilityView>, ReadFailure>,
    p: Seq<PointView>,
    q: Seq<PointView>,
)
    requires
        outcome_sound(role, a, p),
        outcome_sound(role, b, q),
    ensures
        outcome_sound(role, join(a, b), p + q),
{
    if let (Ok(x), Ok(y)) = (a, b) {
        let pq = p + q;
        assert forall|i: int| 0 <= i < (x + y).len() implies product_suits(
            role,
            #[trigger] (x + y)[i],
        ) && located_in((x + y)[i], pq) by {
            if i < x.len() {
                assert((x + y)[i] == x[i]);
                assert(located_in(x[i], p));
                let j = choose|j: int| 0 <= j < p.len() && #[trigger] p[j].0 == x[i].0 && p[j].1 == x[i].1;
                assert(pq[j] == p[j]);
            } else {
                assert((x + y)[i] == y[i - x.len()]);
                assert(located_in(y[i - x.len()], q));
                let j = choose|j: int|
                    0 <= j < q.len() && #[trigger] q[j].0 == y[i - x.len()].0 && q[j].1 == y[i
                        - x.len()].1;
                assert(pq[j + p.len()] == q[j]);
            }
        }
    }
}

proof fn lemma_facilities_sound(role: Role, v: PickleValue)
    ensures
        outcome_sound(role, facilities_of(role, v), points_of(v)),
    decreases v,
{
    match v {
        PickleValue::Dict(entries) => match lookup(entries@, "geometry"@) {
            Some(g) => {
                let r = feature_facility(role, entries@, g);
                if let Ok(fs) = r {
                    if fs.len() > 0 {
                        let pts = points_of(v);
                        assert(pts.len() == 1);
                        assert(fs.len() == 1);
                        assert(pts[0].0 == fs[0].0 && pts[0].1 == fs[0].1);
                        assert(located_in(fs[0], pts));
                    }
                }
            },
            None => lemma_entries_sound(role, entries@),
        },
        PickleValue::List(items) => lemma_items_sound(role, items@),
        _ => {},
    }
}

proof fn lemma_entries_sound(role: Role, entries: Seq<DictEntry>)
    ensures
        outcome_sound(role, facilities_of_entries(role, entries), points_of_entries(entries)),
    decreases entries,
{
    if entries.len() > 0 {
        lemma_entries_sound(role, entries.drop_last());
        lemma_facilities_sound(role, entries.last().value);
        lemma_join_sound(
            role,
            facilities_of_entries(role, entries.drop_last()),
            facilities_of(role, entries.last().value),
            points_of_entries(entries.drop_last()),
            points_of(entries.last().value),
        );
    }
}

proof fn lemma_items_sound(role: Role, items: Seq<PickleValue>)
    ensures
        outcome_sound(role, facilities_of_items(role, items), points_of_items(items)),
    decreases items,
{
    if items.len() > 0 {
        lemma_items_sound(role, items.drop_last());
        lemma_facilities_sound(role, items.last());
        lemma_join_sound(
            role,
            facilities_of_items(role, items.drop_last()),
            facilities_of(role, items.last()),
            points_of_items(items.drop_last()),
            points_of(items.last()),
        );
    }
}

/// Every facility that `get_all_producers` or `get_all_consumers` reports
/// is also a point that `get_all_points` reports: some point record has the
/// same latitude and longitude.
pub proof fn law_facilities_are_points(role: Role, data_sea: PickleValue)
    requires
        facilities_of(role, data_sea) is Ok,
    ensures
        forall|i: int|
            0 <= i < facilities_of(role, data_sea)->Ok_0.len() ==> located_in(
                #[trigger] facilities_of(role, data_sea)->Ok_0[i],
                points_of(data_sea),
            ),
{
    lemma_facilities_sound(role, data_sea);
}

/// Every producer record names natural gas as its product; every consumer
/// record names natural gas or petroleum.
pub proof fn law_products_named(data_sea: PickleValue)
    ensures
        facilities_of(Role::Producer, data_sea) matches Ok(fs) ==> forall|i: int|
            0 <= i < fs.len() ==> (#[trigger] fs[i]).3 == "natural gas"@,
        facilities_of(Role::Consumer, data_sea) matches Ok(fs) ==> forall|i: int|
            0 <= i < fs.len() ==> (#[trigger] fs[i]).3 == "natural gas"@ || fs[i].3
                == "petroleum"@,
{
    lemma_facilities_sound(Role::Producer, data_sea);
    lemma_facilities_sound(Role::Consumer, data_sea);
    if let Ok(fs) = facilities_of(Role::Producer, data_sea) {
        assert forall|i: int| 0 <= i < fs.len() implies (#[trigger] fs[i]).3 == "natural gas"@ by {
            assert(product_suits(Role::Producer, fs[i]));
        }
    }
    if let Ok(fs) = facilities_of(Role::Consumer, data_sea) {
        assert forall|i: int| 0 <= i < fs.len() implies (#[trigger] fs[i]).3 == "natural gas"@
            || fs[i].3 == "petroleum"@ by {
            assert(product_suits(Role::Consumer, fs[i]));
        }
    }
}

/// The name is not held with a number (a float, an integer or a big integer).
pub open spec fn holds_no_number(attrs: Seq<DictEntry>, name: Seq<char>) -> bool {
    match lookup(attrs, name) {
        Some(PickleValue::Float(_)) => false,
        Some(PickleValue::I64(_)) => false,
        Some(PickleValue::BigInt(_)) => false,
        _ => true,
    }
}

/// When none of the names is the required marker and none is held with a
/// number, `read_number` gives 0.
pub proof fn law_absent_number_reads_zero(names: Seq<Seq<char>>, attrs: Seq<DictEntry>)
    requires
        forall|j: int|
            0 <= j < names.len() ==> #[trigger] names[j] != required_marker() && holds_no_number(
                attrs,
                names[j],
            ),
    ensures
        number_reading(names, attrs) == Ok::<Number, ReadFailure>(Number::Float(0)),
    decreases names.len(),
{
    if names.len() > 0 {
        assert(names[0] != required_marker() && holds_no_number(attrs, names[0]));
        let rest = names.drop_first();
        assert forall|j: int| 0 <= j < rest.len() implies #[trigger] rest[j]
            != required_marker() && holds_no_number(attrs, rest[j]) by {
            assert(rest[j] == names[j + 1]);
        }
        law_absent_number_reads_zero(rest, attrs);
    }
}


/// The lower-cased debug text of the entry's value mentions `word`.
pub open spec fn value_mentions(e: DictEntry, word: Seq<char>) -> bool {
    has_infix(lowercase(e.value_debug@), word)
}

/// The entry's key is a text ending in `_MW` or `_mw`.
pub open spec fn key_ends_in_mw(e: DictEntry) -> bool {
    match e.key {
        PickleKey::Text(s) => has_suffix(s@, "_MW"@) || has_suffix(s@, "_mw"@),
        _ => false,
    }
}

/// The entry's value is a text ending in `MW` or `mw`.
pub open spec fn value_ends_in_mw(e: DictEntry) -> bool {
    match e.value {
        PickleValue::Text(s) => has_suffix(s@, "MW"@) || has_suffix(s@, "mw"@),
        _ => false,
    }
}

/// The entry's value names a gas processing plant.
pub open spec fn names_gas_processing(e: DictEntry) -> bool {
    value_mentions(e, "gas"@) && value_mentions(e, "process"@) && value_mentions(e, "plant"@)
}

/// The entry's value names a petroleum power plant.
pub open spec fn names_petroleum_power(e: DictEntry) -> bool {
    value_mentions(e, "petroleum"@) && value_mentions(e, "power"@) && value_mentions(e, "plant"@)
}

/// A feature at (`x`, `y`): its `geometry` is a dictionary whose `x` and `y`
/// are the floats with these bit patterns, and its `attributes` are `attrs`.
pub open spec fn feature_at(entries: Seq<DictEntry>, attrs: Vec<DictEntry>, x: u64, y: u64) -> bool {
    &&& lookup(entries, "attributes"@) == Some(PickleValue::Dict(attrs))
    &&& lookup(entries, "geometry"@) matches Some(PickleValue::Dict(g)) && (lookup(g@, "x"@) matches Some(
        PickleValue::Float(fx),
    ) && fx.bits == x) && (lookup(g@, "y"@) matches Some(PickleValue::Float(fy)) && fy.bits == y)
}

/// The `key=value` line of an attribute: a text key as itself, any other
/// key by its display text, then `=`, the value's debug text and a line break.
pub open spec fn listing_line(e: DictEntry) -> Seq<char> {
    (match e.key {
        PickleKey::Text(s) => s@,
        _ => e.key_text@,
    }) + seq!['='] + e.value_debug@ + seq!['\n']
}

proof fn lemma_listing_flat(attrs: Seq<DictEntry>)
    ensures
        attributes_listing(attrs) == attrs.map_values(|e: DictEntry| listing_line(e)).flatten(),
    decreases attrs.len(),
{
    let f = |e: DictEntry| listing_line(e);
    if attrs.len() == 0 {
        assert(attrs.map_values(f) =~= Seq::empty());
    } else {
        lemma_listing_flat(attrs.drop_last());
        assert(attrs.map_values(f) =~= attrs.drop_last().map_values(f).push(f(attrs.last())));
        attrs.drop_last().map_values(f).lemma_flatten_push(f(attrs.last()));
    }
}

/// A feature with float `x` and `y` is exactly one point: its latitude, its
/// longitude, and one `key=value` line for every attribute, in order,
/// whatever the kind of the value.
pub proof fn law_point_lists_every_attribute(entries: Vec<DictEntry>, attrs: Vec<DictEntry>, x: u64, y: u64)
    requires
        feature_at(entries@, attrs, x, y),
    ensures
        points_of(PickleValue::Dict(entries)) == seq![
            (y, x, attrs@.map_values(|e: DictEntry| listing_line(e)).flatten()),
        ],
{
    lemma_listing_flat(attrs@);
}

/// Every line of a feature carries one `key=value` line for every attribute.
pub proof fn law_lines_list_every_attribute(entries: Vec<DictEntry>, attrs: Vec<DictEntry>)
    requires
        lookup(entries@, "geometry"@) is Some,
        lookup(entries@, "attributes"@) == Some(PickleValue::Dict(attrs)),
    ensures
        forall|i: int|
            0 <= i < lines_of(PickleValue::Dict(entries)).len() ==> (#[trigger] lines_of(
                PickleValue::Dict(entries),
            )[i]).0 == attrs@.map_values(|e: DictEntry| listing_line(e)).flatten(),
{
    lemma_listing_flat(attrs@);
    let msg = feature_listing(entries@);
    let g = lookup(entries@, "geometry"@)->0;
    if let PickleValue::Dict(gs) = g {
        if let Some(PickleValue::List(paths)) = lookup(gs@, "paths"@) {
            if !has_infix(msg, "Railroad"@) {
                lemma_paths_carry(msg, paths@);
            }
        }
    }
}

proof fn lemma_paths_carry(msg: Seq<char>, paths: Seq<PickleValue>)
    ensures
        forall|i: int| 0 <= i < paths_lines(msg, paths).len() ==> (#[trigger] paths_lines(msg, paths)[i]).0 == msg,
    decreases paths.len(),
{
    if paths.len() > 0 {
        lemma_paths_carry(msg, paths.drop_last());
        let a = paths_lines(msg, paths.drop_last());
        let b = path_line(msg, paths.last());
        assert forall|i: int| 0 <= i < (a + b).len() implies (#[trigger] (a + b)[i]).0 == msg by {
            if i < a.len() {
                assert((a + b)[i] == a[i]);
            } else {
                assert((a + b)[i] == b[i - a.len()]);
            }
        }
    }
}

/// A feature none of whose attribute keys ends in `_MW`/`_mw`, none of
/// whose text values ends in `MW`/`mw`, and none of whose attributes
/// mentions a wastewater plant or `petroleumproduct_terminals`, is no consumer.
pub proof fn law_unmarked_feature_is_no_consumer(entries: Vec<DictEntry>, attrs: Vec<DictEntry>)
    requires
        lookup(entries@, "geometry"@) is Some,
        lookup(entries@, "attributes"@) == Some(PickleValue::Dict(attrs)),
        forall|i: int|
            0 <= i < attrs@.len() ==> !key_ends_in_mw(#[trigger] attrs@[i]) && !value_ends_in_mw(
                attrs@[i],
            ) && !(value_mentions(attrs@[i], "wastewater"@) && value_mentions(attrs@[i], "plant"@))
                && !value_mentions(attrs@[i], "petroleumproduct_terminals"@),
    ensures
        facilities_of(Role::Consumer, PickleValue::Dict(entries)) == Ok::<
            Seq<FacilityView>,
            ReadFailure,
        >(Seq::empty()),
{
    assert(!crate::classify::mentions_power(attrs@)) by {
        if crate::classify::mentions_power(attrs@) {
            let i = choose|i: int|
                0 <= i < attrs@.len() && (crate::classify::key_rates_power(#[trigger] attrs@[i].key)
                    || crate::classify::value_rates_power(attrs@[i].value));
            assert(!key_ends_in_mw(attrs@[i]));
        }
    }
    assert(!crate::classify::has_petroleum_sink(attrs@)) by {
        if crate::classify::has_petroleum_sink(attrs@) {
            let i = choose|i: int|
                0 <= i < attrs@.len() && crate::classify::names_petroleum_sink(#[trigger] attrs@[i]);
            assert(!value_mentions(attrs@[i], "petroleumproduct_terminals"@));
        }
    }
}

/// A feature with an attribute key ending in `_MW` or `_mw` is no producer.
pub proof fn law_power_keyed_feature_is_no_producer(entries: Vec<DictEntry>, attrs: Vec<DictEntry>, k: int)
    requires
        lookup(entries@, "geometry"@) is Some,
        lookup(entries@, "attributes"@) == Some(PickleValue::Dict(attrs)),
        0 <= k < attrs@.len(),
        key_ends_in_mw(attrs@[k]),
    ensures
        facilities_of(Role::Producer, PickleValue::Dict(entries)) == Ok::<
            Seq<FacilityView>,
            ReadFailure,
        >(Seq::empty()),
{
    assert(crate::classify::key_rates_power(attrs@[k].key));
}

/// A feature at (`x`, `y`) with no key ending in `_MW`/`_mw` and some
/// attribute naming a gas processing plant is a natural gas producer there:
/// its flow is the `Plant_Flow` number, and without a `Plant_Flow` number
/// the reading fails as a missing attribute.
pub proof fn law_gas_plant_is_producer(
    entries: Vec<DictEntry>,
    attrs: Vec<DictEntry>,
    x: u64,
    y: u64,
    k: int,
)
    requires
        feature_at(entries@, attrs, x, y),
        forall|i: int| 0 <= i < attrs@.len() ==> !key_ends_in_mw(#[trigger] attrs@[i]),
        0 <= k < attrs@.len(),
        names_gas_processing(attrs@[k]),
    ensures
        holds_no_number(attrs@, "Plant_Flow"@) ==> facilities_of(
            Role::Producer,
            PickleValue::Dict(entries),
        ) == Err::<Seq<FacilityView>, ReadFailure>(ReadFailure::MissingAttribute),
        facilities_of(Role::Producer, PickleValue::Dict(entries)) matches Ok(fs) ==> {
            &&& fs.len() == 1
            &&& fs[0].0 == y && fs[0].1 == x
            &&& fs[0].3 == "natural gas"@
            &&& (lookup(attrs@, "Plant_Flow"@) matches Some(PickleValue::Float(f)) ==> fs[0].4
                == Number::Float(f.bits))
            &&& (lookup(attrs@, "Plant_Flow"@) matches Some(PickleValue::I64(i)) ==> fs[0].4
                == Number::Int(i))
        },
{
    assert(!crate::classify::has_power_key(attrs@)) by {
        if crate::classify::has_power_key(attrs@) {
            let i = choose|i: int|
                0 <= i < attrs@.len() && crate::classify::key_rates_power(#[trigger] attrs@[i].key);
            assert(!key_ends_in_mw(attrs@[i]));
        }
    }
    assert(crate::classify::names_gas_plant(attrs@[k]));
    let flow = crate::data_mgmr::producer_flow_names();
    assert(flow[0] == "Plant_Flow"@);
    assert(flow[1] == "!"@);
    assert(flow.drop_first().drop_first() =~= Seq::<Seq<char>>::empty());
    reveal_strlit("Plant_Flow");
    reveal_strlit("!");
    assert(flow[0].len() == 10);
    assert(flow[0] != required_marker());
    assert(flow[1] =~= required_marker());
    assert(flow.drop_first()[0] == flow[1]);
    assert(crate::classify::has_gas_plant(attrs@));
    if holds_no_number(attrs@, "Plant_Flow"@) {
        assert(number_reading(flow.drop_first(), attrs@) == Err::<Number, ReadFailure>(ReadFailure::MissingAttribute));
        assert(number_reading(flow, attrs@) == Err::<Number, ReadFailure>(ReadFailure::MissingAttribute));
    }
}

/// The fuel of the last plant named decides the fuel of a power plant.
proof fn lemma_last_plant_decides(attrs: Seq<DictEntry>, k: int)
    requires
        0 <= k < attrs.len(),
        names_gas_processing(attrs[k]) || names_petroleum_power(attrs[k]),
        forall|j: int| k < j < attrs.len() ==> !names_gas_processing(#[trigger] attrs[j]) && !names_petroleum_power(attrs[j]),
    ensures
        plant_fuel(attrs) == Some(if names_petroleum_power(attrs[k]) { Fuel::Petroleum } else { Fuel::NaturalGas }),
    decreases attrs.len(),
{
    if k < attrs.len() - 1 {
        let l = attrs.last();
        assert(!names_gas_processing(attrs[attrs.len() - 1]));
        assert(!crate::classify::names_petroleum_plant(l) && !crate::classify::names_gas_plant(l));
        lemma_last_plant_decides(attrs.drop_last(), k);
    }
}

/// A feature at (`x`, `y`) rated in power (a key ending in `_MW`/`_mw` or a
/// text value ending in `MW`/`mw`) consumes the fuel of the last plant its
/// attributes name: petroleum for a petroleum power plant, natural gas for a
/// gas processing plant.
pub proof fn law_power_plant_consumes_its_fuel(
    entries: Vec<DictEntry>,
    attrs: Vec<DictEntry>,
    x: u64,
    y: u64,
    m: int,
    k: int,
)
    requires
        feature_at(entries@, attrs, x, y),
        0 <= m < attrs@.len(),
        key_ends_in_mw(attrs@[m]) || value_ends_in_mw(attrs@[m]),
        0 <= k < attrs@.len(),
        names_gas_processing(attrs@[k]) || names_petroleum_power(attrs@[k]),
        forall|j: int|
            k < j < attrs@.len() ==> !names_gas_processing(#[trigger] attrs@[j])
                && !names_petroleum_power(attrs@[j]),
    ensures
        facilities_of(Role::Consumer, PickleValue::Dict(entries)) matches Ok(fs) ==> {
            &&& fs.len() == 1
            &&& fs[0].0 == y && fs[0].1 == x
            &&& fs[0].3 == if names_petroleum_power(attrs@[k]) {
                "petroleum"@
            } else {
                "natural gas"@
            }
        },
{
    lemma_last_plant_decides(attrs@, k);
    assert(crate::classify::key_rates_power(attrs@[m].key) || crate::classify::value_rates_power(
        attrs@[m].value,
    ));
}

/// A feature at (`x`, `y`) naming no gas processing plant and no petroleum
/// power plant, and mentioning a wastewater plant or
/// `petroleumproduct_terminals`, consumes petroleum there.
pub proof fn law_petroleum_sink_consumes_petroleum(
    entries: Vec<DictEntry>,
    attrs: Vec<DictEntry>,
    x: u64,
    y: u64,
    k: int,
)
    requires
        feature_at(entries@, attrs, x, y),
        forall|j: int|
            0 <= j < attrs@.len() ==> !names_gas_processing(#[trigger] attrs@[j])
                && !names_petroleum_power(attrs@[j]),
        0 <= k < attrs@.len(),
        (value_mentions(attrs@[k], "wastewater"@) && value_mentions(attrs@[k], "plant"@))
            || value_mentions(attrs@[k], "petroleumproduct_terminals"@),
    ensures
        facilities_of(Role::Consumer, PickleValue::Dict(entries)) matches Ok(fs) ==> {
            &&& fs.len() == 1
            &&& fs[0].0 == y && fs[0].1 == x
            &&& fs[0].3 == "petroleum"@
        },
{
    lemma_no_plant(attrs@);
    assert(crate::classify::names_petroleum_sink(attrs@[k]));
}

proof fn lemma_no_plant(attrs: Seq<DictEntry>)
    requires
        forall|j: int|
            0 <= j < attrs.len() ==> !names_gas_processing(#[trigger] attrs[j])
                && !names_petroleum_power(attrs[j]),
    ensures
        plant_fuel(attrs) is None,
    decreases attrs.len(),
{
    if attrs.len() > 0 {
        assert(!names_gas_processing(attrs[attrs.len() - 1]));
        lemma_no_plant(attrs.drop_last());
    }
}

/// `read_number` gives the number held under the first name that holds one:
/// the names before it are neither the `"!"` marker nor held with a number,
/// and whatever the number is (zero included), it is the result.
pub proof fn law_first_number_is_read(names: Seq<Seq<char>>, attrs: Seq<DictEntry>, k: int)
    requires
        0 <= k < names.len(),
        forall|j: int|
            0 <= j < k ==> #[trigger] names[j] != seq!['!'] && holds_no_number(attrs, names[j]),
        names[k] != seq!['!'],
    ensures
        lookup(attrs, names[k]) matches Some(PickleValue::Float(f)) ==> number_reading(names, attrs)
            == Ok::<Number, ReadFailure>(Number::Float(f.bits)),
        lookup(attrs, names[k]) matches Some(PickleValue::I64(i)) ==> number_reading(names, attrs)
            == Ok::<Number, ReadFailure>(Number::Int(i)),
        lookup(attrs, names[k]) matches Some(PickleValue::BigInt(_)) ==> number_reading(
            names,
            attrs,
        ) == Err::<Number, ReadFailure>(ReadFailure::BigInteger),
    decreases k,
{
    if k > 0 {
        assert(names[0] != required_marker() && holds_no_number(attrs, names[0]));
        let rest = names.drop_first();
        assert forall|j: int| 0 <= j < k - 1 implies #[trigger] rest[j] != seq!['!']
            && holds_no_number(attrs, rest[j]) by {
            assert(rest[j] == names[j + 1]);
        }
        assert(rest[k - 1] == names[k]);
        law_first_number_is_read(rest, attrs, k - 1);
    }
}

/// The text of a value that reads as text: a float by its display text, an
/// integer by its decimal digits, a string as itself, bytes decoded
/// leniently; a big integer cannot be read.
pub open spec fn reads_as(v: PickleValue, t: Result<Seq<char>, ReadFailure>) -> bool {
    match v {
        PickleValue::Float(f) => t == Ok::<Seq<char>, ReadFailure>(f.text@),
        PickleValue::I64(i) => t == Ok::<Seq<char>, ReadFailure>(int_decimal(i as int)),
        PickleValue::Text(s) => t == Ok::<Seq<char>, ReadFailure>(s@),
        PickleValue::Bytes(b) => t == Ok::<Seq<char>, ReadFailure>(utf8_lossy(b@)),
        PickleValue::BigInt(_) => t == Err::<Seq<char>, ReadFailure>(ReadFailure::BigInteger),
        _ => false,
    }
}

/// The value is of a kind that is read as text.
pub open spec fn is_readable(v: PickleValue) -> bool {
    match v {
        PickleValue::Float(_) | PickleValue::I64(_) | PickleValue::Text(_) | PickleValue::Bytes(_)
        | PickleValue::BigInt(_) => true,
        _ => false,
    }
}

/// `read_string` gives the text of the first name held with a readable
/// value, the names before it being neither the marker nor so held.
pub proof fn law_first_text_is_read(names: Seq<Seq<char>>, attrs: Seq<DictEntry>, k: int)
    requires
        0 <= k < names.len(),
        forall|j: int|
            0 <= j < k ==> #[trigger] names[j] != seq!['!'] && !(lookup(attrs, names[j]) matches Some(v)
                && is_readable(v)),
        names[k] != seq!['!'],
        lookup(attrs, names[k]) matches Some(v) && is_readable(v),
    ensures
        reads_as(lookup(attrs, names[k])->0, text_reading(names, attrs)),
    decreases k,
{
    if k > 0 {
        assert(names[0] != required_marker());
        let rest = names.drop_first();
        assert forall|j: int| 0 <= j < k - 1 implies #[trigger] rest[j] != seq!['!']
            && !(lookup(attrs, rest[j]) matches Some(v) && is_readable(v)) by {
            assert(rest[j] == names[j + 1]);
        }
        assert(rest[k - 1] == names[k]);
        law_first_text_is_read(rest, attrs, k - 1);
    }
}

/// Some name occurs in the text.
pub open spec fn text_mentions_a_name(t: Seq<char>, names: Seq<Seq<char>>) -> bool {
    exists|j: int| 0 <= j < names.len() && has_infix(t, #[trigger] names[j])
}

/// `read_string_containing` gives the text of the first attribute whose
/// key's debug text contains one of the names and whose value is readable.
pub proof fn law_first_containing_text_is_read(names: Seq<Seq<char>>, attrs: Seq<DictEntry>, k: int)
    requires
        0 <= k < attrs.len(),
        forall|j: int|
            0 <= j < k ==> !(text_mentions_a_name((#[trigger] attrs[j]).key_debug@, names)
                && is_readable(attrs[j].value)),
        text_mentions_a_name(attrs[k].key_debug@, names),
        is_readable(attrs[k].value),
    ensures
        reads_as(attrs[k].value, containing_reading(names, attrs)),
    decreases k,
{
    assert(mentions_any(attrs[k].key_debug@, names));
    if k > 0 {
        assert(!(mentions_any(attrs[0].key_debug@, names) && is_readable(attrs[0].value)));
        let rest = attrs.drop_first();
        assert forall|j: int| 0 <= j < k - 1 implies !(text_mentions_a_name(
            (#[trigger] rest[j]).key_debug@,
            names,
        ) && is_readable(rest[j].value)) by {
            assert(rest[j] == attrs[j + 1]);
        }
        assert(rest[k - 1] == attrs[k]);
        law_first_containing_text_is_read(names, rest, k - 1);
    }
}


/// No attribute holds an integer too large for 64 bits.
pub open spec fn no_big_integers(attrs: Seq<DictEntry>) -> bool {
    forall|i: int| 0 <= i < attrs.len() ==> !((#[trigger] attrs[i]).value is BigInt)
}

proof fn lemma_containing_succeeds(names: Seq<Seq<char>>, attrs: Seq<DictEntry>)
    requires
        no_big_integers(attrs),
    ensures
        containing_reading(names, attrs) is Ok,
    decreases attrs.len(),
{
    if attrs.len() > 0 {
        assert(!(attrs[0].value is BigInt));
        let rest = attrs.drop_first();
        assert forall|i: int| 0 <= i < rest.len() implies !((#[trigger] rest[i]).value is BigInt) by {
            assert(rest[i] == attrs[i + 1]);
        }
        lemma_containing_succeeds(names, rest);
    }
}

proof fn lemma_number_succeeds(names: Seq<Seq<char>>, attrs: Seq<DictEntry>)
    requires
        forall|j: int| 0 <= j < names.len() ==> (#[trigger] names[j]).len() != 1,
        forall|j: int| 0 <= j < names.len() ==> !(lookup(attrs, #[trigger] names[j]) matches Some(PickleValue::BigInt(_))),
    ensures
        number_reading(names, attrs) is Ok,
    decreases names.len(),
{
    if names.len() > 0 {
        assert(names[0].len() != 1);
        assert(names[0] != required_marker());
        let rest = names.drop_first();
        assert forall|j: int| 0 <= j < rest.len() implies (#[trigger] rest[j]).len() != 1 && !(lookup(attrs, rest[j]) matches Some(PickleValue::BigInt(_))) by {
            assert(rest[j] == names[j + 1]);
        }
        lemma_number_succeeds(rest, attrs);
    }
}

/// Nothing held under the name is a big integer.
proof fn lemma_lookup_not_big(attrs: Seq<DictEntry>, name: Seq<char>)
    requires
        no_big_integers(attrs),
    ensures
        !(lookup(attrs, name) matches Some(PickleValue::BigInt(_))),
    decreases attrs.len(),
{
    if attrs.len() > 0 {
        assert(!(attrs[0].value is BigInt));
        let rest = attrs.drop_first();
        assert forall|i: int| 0 <= i < rest.len() implies !((#[trigger] rest[i]).value is BigInt) by {
            assert(rest[i] == attrs[i + 1]);
        }
        lemma_lookup_not_big(rest, name);
    }
}

/// A consumer record carries the text of the first attribute whose key
/// mentions `Name`, `name`, `NAME` or `Company`, and the number under the
/// first of `Plant_Flow`, `Total_MW`, `NG_MW`, `Crude_MW` that holds one;
/// and when no attribute holds a big integer, reading a feature as a
/// consumer does not fail.
pub proof fn law_consumer_reads(entries: Vec<DictEntry>, attrs: Vec<DictEntry>, x: u64, y: u64)
    requires
        feature_at(entries@, attrs, x, y),
    ensures
        facilities_of(Role::Consumer, PickleValue::Dict(entries)) matches Ok(fs) ==> (fs.len() == 1
            ==> fs[0].2 == containing_reading(seq!["Name"@, "name"@, "NAME"@, "Company"@], attrs@)->Ok_0
            && fs[0].4 == number_reading(
            seq!["Plant_Flow"@, "Total_MW"@, "NG_MW"@, "Crude_MW"@],
            attrs@,
        )->Ok_0),
        no_big_integers(attrs@) ==> facilities_of(Role::Consumer, PickleValue::Dict(entries)) is Ok,
{
    let names = crate::data_mgmr::facility_name_names();
    let amounts = crate::data_mgmr::consumer_amount_names();
    assert(names =~= seq!["Name"@, "name"@, "NAME"@, "Company"@]);
    assert(amounts =~= seq!["Plant_Flow"@, "Total_MW"@, "NG_MW"@, "Crude_MW"@]);
    if no_big_integers(attrs@) {
        lemma_containing_succeeds(names, attrs@);
        reveal_strlit("Plant_Flow");
        reveal_strlit("Total_MW");
        reveal_strlit("NG_MW");
        reveal_strlit("Crude_MW");
        assert forall|j: int| 0 <= j < amounts.len() implies (#[trigger] amounts[j]).len() != 1
            && !(lookup(attrs@, amounts[j]) matches Some(PickleValue::BigInt(_))) by {
            lemma_lookup_not_big(attrs@, amounts[j]);
        }
        lemma_number_succeeds(amounts, attrs@);
    }
}

/// A producer record carries the text of the first attribute whose key
/// mentions `Name`, `name`, `NAME` or `Company`; and when `Plant_Flow` holds
/// a float or an integer and no attribute holds a big integer, reading a
/// feature as a producer does not fail.
pub proof fn law_producer_reads(entries: Vec<DictEntry>, attrs: Vec<DictEntry>, x: u64, y: u64)
    requires
        feature_at(entries@, attrs, x, y),
    ensures
        facilities_of(Role::Producer, PickleValue::Dict(entries)) matches Ok(fs) ==> (fs.len() == 1
            ==> fs[0].2 == containing_reading(seq!["Name"@, "name"@, "NAME"@, "Company"@], attrs@)->Ok_0),
        no_big_integers(attrs@) && (lookup(attrs@, "Plant_Flow"@) matches Some(PickleValue::Float(_))
            || lookup(attrs@, "Plant_Flow"@) matches Some(PickleValue::I64(_))) ==> facilities_of(
            Role::Producer,
            PickleValue::Dict(entries),
        ) is Ok,
{
    let names = crate::data_mgmr::facility_name_names();
    assert(names =~= seq!["Name"@, "name"@, "NAME"@, "Company"@]);
    if no_big_integers(attrs@) {
        lemma_containing_succeeds(names, attrs@);
        let flow = crate::data_mgmr::producer_flow_names();
        reveal_strlit("Plant_Flow");
        assert(flow[0] == "Plant_Flow"@);
        assert(flow[0] != required_marker());
    }
}


/// The point of a coordinate: a list whose first two items are floats gives
/// their bit patterns, in order; anything else gives nothing.
pub open spec fn coordinate_of(c: PickleValue) -> Seq<(u64, u64)> {
    match c {
        PickleValue::List(cl) => if cl@.len() >= 2 && cl@[0] is Float && cl@[1] is Float {
            seq![(cl@[0]->Float_0.bits, cl@[1]->Float_0.bits)]
        } else {
            Seq::empty()
        },
        _ => Seq::empty(),
    }
}

/// The points of a path: those of its coordinates, in order.
pub open spec fn points_along(p: PickleValue) -> Seq<(u64, u64)> {
    match p {
        PickleValue::List(cs) => cs@.map_values(|c: PickleValue| coordinate_of(c)).flatten(),
        _ => Seq::empty(),
    }
}

/// The line of a path: its points, with the message, when there are two or more.
pub open spec fn line_along(msg: Seq<char>, p: PickleValue) -> Seq<LineView> {
    if points_along(p).len() >= 2 {
        seq![(msg, points_along(p))]
    } else {
        Seq::empty()
    }
}

proof fn lemma_coordinates_flat(cs: Seq<PickleValue>)
    ensures
        coordinate_points(cs) == cs.map_values(|c: PickleValue| coordinate_of(c)).flatten(),
    decreases cs.len(),
{
    let f = |c: PickleValue| coordinate_of(c);
    if cs.len() == 0 {
        assert(cs.map_values(f) =~= Seq::empty());
    } else {
        lemma_coordinates_flat(cs.drop_last());
        assert(coordinate_point(cs.last()) == coordinate_of(cs.last()));
        assert(cs.map_values(f) =~= cs.drop_last().map_values(f).push(f(cs.last())));
        cs.drop_last().map_values(f).lemma_flatten_push(f(cs.last()));
    }
}

proof fn lemma_paths_flat(msg: Seq<char>, ps: Seq<PickleValue>)
    ensures
        paths_lines(msg, ps) == ps.map_values(|p: PickleValue| line_along(msg, p)).flatten(),
    decreases ps.len(),
{
    let f = |p: PickleValue| line_along(msg, p);
    if ps.len() == 0 {
        assert(ps.map_values(f) =~= Seq::empty());
    } else {
        lemma_paths_flat(msg, ps.drop_last());
        let last = ps.last();
        if let PickleValue::List(cs) = last {
            lemma_coordinates_flat(cs@);
        }
        assert(path_points(last) == points_along(last));
        assert(path_line(msg, last) == line_along(msg, last));
        assert(ps.map_values(f) =~= ps.drop_last().map_values(f).push(f(last)));
        ps.drop_last().map_values(f).lemma_flatten_push(f(last));
    }
}

/// The lines of a feature whose geometry holds a `paths` list: none when
/// its attribute listing mentions `Railroad`; otherwise, path by path in
/// order, one line with the listing for each path that has at least two
/// coordinates made of two floats, the points being those coordinates in order.
pub proof fn law_feature_lines(entries: Vec<DictEntry>, attrs: Vec<DictEntry>, paths: Vec<PickleValue>)
    requires
        lookup(entries@, "attributes"@) == Some(PickleValue::Dict(attrs)),
        lookup(entries@, "geometry"@) matches Some(PickleValue::Dict(g)) && lookup(g@, "paths"@)
            == Some(PickleValue::List(paths)),
    ensures
        has_infix(attrs@.map_values(|e: DictEntry| listing_line(e)).flatten(), "Railroad"@)
            ==> lines_of(PickleValue::Dict(entries)) == Seq::<LineView>::empty(),
        !has_infix(attrs@.map_values(|e: DictEntry| listing_line(e)).flatten(), "Railroad"@)
            ==> lines_of(PickleValue::Dict(entries)) == paths@.map_values(
            |p: PickleValue| line_along(attrs@.map_values(|e: DictEntry| listing_line(e)).flatten(), p),
        ).flatten(),
{
    lemma_listing_flat(attrs@);
    let msg = attrs@.map_values(|e: DictEntry| listing_line(e)).flatten();
    assert(feature_listing(entries@) == msg);
    lemma_paths_flat(msg, paths@);
}


/// A feature none of whose attributes names a gas processing plant is no
/// producer.
pub proof fn law_only_gas_plants_produce(entries: Vec<DictEntry>, attrs: Vec<DictEntry>)
    requires
        lookup(entries@, "geometry"@) is Some,
        lookup(entries@, "attributes"@) == Some(PickleValue::Dict(attrs)),
        forall|i: int| 0 <= i < attrs@.len() ==> !names_gas_processing(#[trigger] attrs@[i]),
    ensures
        facilities_of(Role::Producer, PickleValue::Dict(entries)) == Ok::<
            Seq<FacilityView>,
            ReadFailure,
        >(Seq::empty()),
{
    assert(!crate::classify::has_gas_plant(attrs@)) by {
        if crate::classify::has_gas_plant(attrs@) {
            let i = choose|i: int|
                0 <= i < attrs@.len() && crate::classify::names_gas_plant(#[trigger] attrs@[i]);
            assert(!names_gas_processing(attrs@[i]));
        }
    }
}

/// A feature none of whose attributes names a gas processing plant or a
/// petroleum power plant, and none of which mentions a wastewater plant or
/// `petroleumproduct_terminals`, is no consumer, whatever its power rating.
pub proof fn law_only_plants_and_sinks_consume(entries: Vec<DictEntry>, attrs: Vec<DictEntry>)
    requires
        lookup(entries@, "geometry"@) is Some,
        lookup(entries@, "attributes"@) == Some(PickleValue::Dict(attrs)),
        forall|i: int|
            0 <= i < attrs@.len() ==> !names_gas_processing(#[trigger] attrs@[i])
                && !names_petroleum_power(attrs@[i]) && !(value_mentions(attrs@[i], "wastewater"@)
                && value_mentions(attrs@[i], "plant"@)) && !value_mentions(
                attrs@[i],
                "petroleumproduct_terminals"@,
            ),
    ensures
        facilities_of(Role::Consumer, PickleValue::Dict(entries)) == Ok::<
            Seq<FacilityView>,
            ReadFailure,
        >(Seq::empty()),
{
    lemma_no_plant(attrs@);
    assert(!crate::classify::has_petroleum_sink(attrs@)) by {
        if crate::classify::has_petroleum_sink(attrs@) {
            let i = choose|i: int|
                0 <= i < attrs@.len() && crate::classify::names_petroleum_sink(#[trigger] attrs@[i]);
            assert(!value_mentions(attrs@[i], "petroleumproduct_terminals"@));
        }
    }
}

}
