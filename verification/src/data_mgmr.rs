//! Extraction of map features from the data sea: every dictionary that has
//! a `geometry` entry is a feature, and every other dictionary or list is
//! searched, in order, for features.
use vstd::prelude::*;
use crate::attributes::{
    containing_reading, feature_listing, number_reading, render_feature_attributes, texts,
    try_read_number, try_read_string_containing, Number, ReadFailure,
};
pub use crate::attributes::{read_number, read_string, read_string_containing};
use crate::classify::{
    consumed_fuel, consumed_fuel_exec, fuel_name, fuel_string, is_producer, is_producer_exec, Fuel,
};
use crate::gis_structs::{DebugLine, LineView};
use crate::pickle::{dict_get, lookup, DictEntry, PickleValue};
use crate::text::{chars_contain, chars_of, has_infix};

verus! {

broadcast use vstd::string::group_string_axioms;

/// A point record: latitude (`y`) and longitude (`x`) by their bit patterns,
/// and the attribute listing of the feature.
pub type PointView = (u64, u64, Seq<char>);

/// The view of a list of point records.
pub open spec fn point_views(s: Seq<(u64, u64, String)>) -> Seq<PointView> {
    s.map_values(|p: (u64, u64, String)| (p.0, p.1, p.2@))
}

/// The point record of a feature, if its geometry is a dictionary whose `x`
/// and `y` entries are both floats.
pub open spec fn feature_point(feature: Seq<DictEntry>, geometry: PickleValue) -> Seq<PointView> {
    match geometry {
        PickleValue::Dict(g) => match (lookup(g@, "x"@), lookup(g@, "y"@)) {
            (Some(PickleValue::Float(x)), Some(PickleValue::Float(y))) => seq![
                (y.bits, x.bits, feature_listing(feature)),
            ],
            _ => Seq::empty(),
        },
        _ => Seq::empty(),
    }
}

/// The point records of a value, in traversal order.
pub open spec fn points_of(v: PickleValue) -> Seq<PointView>
    decreases v,
{
    match v {
        PickleValue::Dict(entries) => match lookup(entries@, "geometry"@) {
            Some(g) => feature_point(entries@, g),
            None => points_of_entries(entries@),
        },
        PickleValue::List(items) => points_of_items(items@),
        _ => Seq::empty(),
    }
}

/// The point records of the values of a sequence of dictionary entries.
pub open spec fn points_of_entries(entries: Seq<DictEntry>) -> Seq<PointView>
    decreases entries,
{
    if entries.len() == 0 {
        Seq::empty()
    } else {
        points_of_entries(entries.drop_last()) + points_of(entries.last().value)
    }
}

/// The point records of a sequence of values.
pub open spec fn points_of_items(items: Seq<PickleValue>) -> Seq<PointView>
    decreases items,
{
    if items.len() == 0 {
        Seq::empty()
    } else {
        points_of_items(items.drop_last()) + points_of(items.last())
    }
}

fn point_of_feature(feature: &Vec<DictEntry>, geometry: &PickleValue) -> (r: Vec<(u64, u64, String)>)
    ensures
        point_views(r@) == feature_point(feature@, *geometry),
{
    let mut r: Vec<(u64, u64, String)> = Vec::new();
    if let PickleValue::Dict(g) = geometry {
        if let (Some(PickleValue::Float(x)), Some(PickleValue::Float(y))) = (
            dict_get(g, "x"),
            dict_get(g, "y"),
        ) {
            let listing = render_feature_attributes(feature);
            r.push((y.bits, x.bits, listing));
            assert(point_views(r@) =~= feature_point(feature@, *geometry));
            return r;
        }
    }
    assert(point_views(r@) =~= feature_point(feature@, *geometry));
    r
}

/// All point features of the data sea: for each dictionary with a
/// `geometry` whose `x` and `y` are floats, its latitude, its longitude and
/// the `key=value` listing of its attributes.
pub fn get_all_points(data_sea: &PickleValue) -> (points: Vec<(u64, u64, String)>)
    ensures
        point_views(points@) == points_of(*data_sea),
    decreases data_sea,
{
    let mut points: Vec<(u64, u64, String)> = Vec::new();
    match data_sea {
        PickleValue::Dict(map) => {
            match dict_get(map, "geometry") {
                Some(geometry) => {
                    points = point_of_feature(map, geometry);
                },
                None => {
                    let mut i: usize = 0;
                    while i < map.len()
                        invariant
                            i <= map@.len(),
                            *data_sea == PickleValue::Dict(*map),
                            point_views(points@) == points_of_entries(map@.take(i as int)),
                        decreases map.len() - i,
                    {
                        proof {
                            assert(decreases_to!(*data_sea => (*data_sea)->Dict_0));
                            assert(decreases_to!(*map => map@));
                            assert(decreases_to!(map@ => map@[i as int]));
                            assert(decreases_to!(map@[i as int] => map@[i as int].value));
                            assert(decreases_to!(*data_sea => map@[i as int].value));
                        }
                        let mut sub = get_all_points(&map[i].value);
                        let ghost before = points@;
                        let ghost added = sub@;
                        points.append(&mut sub);
                        proof {
                            assert(map@.take(i + 1).drop_last() =~= map@.take(i as int));
                            assert(point_views(points@) =~= point_views(before) + point_views(added));
                        }
                        i = i + 1;
                    }
                    assert(map@.take(map@.len() as int) =~= map@);
                },
            }
        },
        PickleValue::List(list) => {
            let mut i: usize = 0;
            while i < list.len()
                invariant
                    i <= list@.len(),
                    *data_sea == PickleValue::List(*list),
                    point_views(points@) == points_of_items(list@.take(i as int)),
                decreases list.len() - i,
            {
                proof {
                    assert(decreases_to!(*data_sea => (*data_sea)->List_0));
                    assert(decreases_to!(*list => list@));
                    assert(decreases_to!(list@ => list@[i as int]));
                    assert(decreases_to!(*data_sea => list@[i as int]));
                }
                let mut sub = get_all_points(&list[i]);
                let ghost before = points@;
                let ghost added = sub@;
                points.append(&mut sub);
                proof {
                    assert(list@.take(i + 1).drop_last() =~= list@.take(i as int));
                    assert(point_views(points@) =~= point_views(before) + point_views(added));
                }
                i = i + 1;
            }
            assert(list@.take(list@.len() as int) =~= list@);
        },
        _ => {},
    }
    points
}


/// The view of a list of lines.
pub open spec fn line_views(s: Seq<DebugLine>) -> Seq<LineView> {
    s.map_values(|l: DebugLine| l@)
}

/// The point of one coordinate of a path: a list whose first two items are
/// floats gives (first, second); anything else gives nothing.
pub open spec fn coordinate_point(c: PickleValue) -> Seq<(u64, u64)> {
    match c {
        PickleValue::List(cl) => if cl@.len() > 1 {
            match (cl@[0], cl@[1]) {
                (PickleValue::Float(x), PickleValue::Float(y)) => seq![(x.bits, y.bits)],
                _ => Seq::empty(),
            }
        } else {
            Seq::empty()
        },
        _ => Seq::empty(),
    }
}

/// The points of a sequence of coordinates.
pub open spec fn coordinate_points(coords: Seq<PickleValue>) -> Seq<(u64, u64)>
    decreases coords.len(),
{
    if coords.len() == 0 {
        Seq::empty()
    } else {
        coordinate_points(coords.drop_last()) + coordinate_point(coords.last())
    }
}

/// The points of one path: its coordinates when it is a list.
pub open spec fn path_points(path: PickleValue) -> Seq<(u64, u64)> {
    match path {
        PickleValue::List(coords) => coordinate_points(coords@),
        _ => Seq::empty(),
    }
}

/// The line of one path, if it has at least two points.
pub open spec fn path_line(msg: Seq<char>, path: PickleValue) -> Seq<LineView> {
    if path_points(path).len() > 1 {
        seq![(msg, path_points(path))]
    } else {
        Seq::empty()
    }
}

/// The lines of a sequence of paths, all with the same message.
pub open spec fn paths_lines(msg: Seq<char>, paths: Seq<PickleValue>) -> Seq<LineView>
    decreases paths.len(),
{
    if paths.len() == 0 {
        Seq::empty()
    } else {
        paths_lines(msg, paths.drop_last()) + path_line(msg, paths.last())
    }
}

/// The lines of a feature: one per path of its geometry's `paths` list,
/// unless its attribute listing mentions `Railroad`.
pub open spec fn feature_lines(feature: Seq<DictEntry>, geometry: PickleValue) -> Seq<LineView> {
    match geometry {
        PickleValue::Dict(g) => match lookup(g@, "paths"@) {
            Some(PickleValue::List(paths)) => if has_infix(feature_listing(feature), "Railroad"@) {
                Seq::empty()
            } else {
                paths_lines(feature_listing(feature), paths@)
            },
            _ => Seq::empty(),
        },
        _ => Seq::empty(),
    }
}

/// The lines of a value, in traversal order.
pub open spec fn lines_of(v: PickleValue) -> Seq<LineView>
    decreases v,
{
    match v {
        PickleValue::Dict(entries) => match lookup(entries@, "geometry"@) {
            Some(g) => feature_lines(entries@, g),
            None => lines_of_entries(entries@),
        },
        PickleValue::List(items) => lines_of_items(items@),
        _ => Seq::empty(),
    }
}

/// The lines of the values of a sequence of dictionary entries.
pub open spec fn lines_of_entries(entries: Seq<DictEntry>) -> Seq<LineView>
    decreases entries,
{
    if entries.len() == 0 {
        Seq::empty()
    } else {
        lines_of_entries(entries.drop_last()) + lines_of(entries.last().value)
    }
}

/// The lines of a sequence of values.
pub open spec fn lines_of_items(items: Seq<PickleValue>) -> Seq<LineView>
    decreases items,
{
    if items.len() == 0 {
        Seq::empty()
    } else {
        lines_of_items(items.drop_last()) + lines_of(items.last())
    }
}

/// The points of one path.
fn points_of_path(path: &PickleValue) -> (r: Vec<(u64, u64)>)
    ensures
        r@ == path_points(*path),
{
    let mut r: Vec<(u64, u64)> = Vec::new();
    if let PickleValue::List(coords) = path {
        let mut i: usize = 0;
        while i < coords.len()
            invariant
                i <= coords@.len(),
                r@ == coordinate_points(coords@.take(i as int)),
            decreases coords.len() - i,
        {
            let ghost before = r@;
            if let PickleValue::List(cl) = &coords[i] {
                if cl.len() > 1 {
                    if let (PickleValue::Float(x), PickleValue::Float(y)) = (&cl[0], &cl[1]) {
                        r.push((x.bits, y.bits));
                    }
                }
            }
            proof {
                assert(coords@.take(i + 1).drop_last() =~= coords@.take(i as int));
                assert(r@ =~= before + coordinate_point(coords@[i as int]));
            }
            i = i + 1;
        }
        assert(coords@.take(coords@.len() as int) =~= coords@);
    }
    r
}

/// The lines of a feature.
fn lines_of_feature(feature: &Vec<DictEntry>, geometry: &PickleValue) -> (r: Vec<DebugLine>)
    ensures
        line_views(r@) == feature_lines(feature@, *geometry),
{
    let mut lines: Vec<DebugLine> = Vec::new();
    if let PickleValue::Dict(g) = geometry {
        if let Some(PickleValue::List(paths_list)) = dict_get(g, "paths") {
            let debug_s = render_feature_attributes(feature);
            proof {
                reveal_strlit("Railroad");
            }
            if chars_contain(&chars_of(debug_s.as_str()), &chars_of("Railroad")) {
                assert(line_views(lines@) =~= feature_lines(feature@, *geometry));
                return lines;
            }
            let mut i: usize = 0;
            while i < paths_list.len()
                invariant
                    i <= paths_list@.len(),
                    debug_s@ == feature_listing(feature@),
                    line_views(lines@) == paths_lines(debug_s@, paths_list@.take(i as int)),
                decreases paths_list.len() - i,
            {
                let ghost before = lines@;
                let line_string_vec = points_of_path(&paths_list[i]);
                if line_string_vec.len() > 1 {
                    lines.push(DebugLine { msg: debug_s.clone(), geom: line_string_vec });
                }
                proof {
                    assert(paths_list@.take(i + 1).drop_last() =~= paths_list@.take(i as int));
                    assert(line_views(lines@) =~= line_views(before) + path_line(
                        debug_s@,
                        paths_list@[i as int],
                    ));
                }
                i = i + 1;
            }
            assert(paths_list@.take(paths_list@.len() as int) =~= paths_list@);
            return lines;
        }
    }
    assert(line_views(lines@) =~= feature_lines(feature@, *geometry));
    lines
}

/// All line features of the data sea: for each dictionary with a
/// `geometry` whose `paths` is a list, one line per path with at least two
/// float coordinates, carrying the feature's attribute listing; features
/// whose listing mentions `Railroad` are left out.
pub fn get_all_lines(data_sea: &PickleValue) -> (lines: Vec<DebugLine>)
    ensures
        line_views(lines@) == lines_of(*data_sea),
    decreases data_sea,
{
    let mut lines: Vec<DebugLine> = Vec::new();
    match data_sea {
        PickleValue::Dict(map) => {
            match dict_get(map, "geometry") {
                Some(geometry) => {
                    lines = lines_of_feature(map, geometry);
                },
                None => {
                    let mut i: usize = 0;
                    while i < map.len()
                        invariant
                            i <= map@.len(),
                            *data_sea == PickleValue::Dict(*map),
                            line_views(lines@) == lines_of_entries(map@.take(i as int)),
                        decreases map.len() - i,
                    {
                        proof {
                            assert(decreases_to!(*data_sea => (*data_sea)->Dict_0));
                            assert(decreases_to!(*map => map@));
                            assert(decreases_to!(map@ => map@[i as int]));
                            assert(decreases_to!(map@[i as int] => map@[i as int].value));
                        }
                        let mut sub = get_all_lines(&map[i].value);
                        let ghost before = lines@;
                        let ghost added = sub@;
                        lines.append(&mut sub);
                        proof {
                            assert(map@.take(i + 1).drop_last() =~= map@.take(i as int));
                            assert(line_views(lines@) =~= line_views(before) + line_views(added));
                        }
                        i = i + 1;
                    }
                    assert(map@.take(map@.len() as int) =~= map@);
                },
            }
        },
        PickleValue::List(list) => {
            let mut i: usize = 0;
            while i < list.len()
                invariant
                    i <= list@.len(),
                    *data_sea == PickleValue::List(*list),
                    line_views(lines@) == lines_of_items(list@.take(i as int)),
                decreases list.len() - i,
            {
                proof {
                    assert(decreases_to!(*data_sea => (*data_sea)->List_0));
                    assert(decreases_to!(*list => list@));
                    assert(decreases_to!(list@ => list@[i as int]));
                }
                let mut sub = get_all_lines(&list[i]);
                let ghost before = lines@;
                let ghost added = sub@;
                lines.append(&mut sub);
                proof {
                    assert(list@.take(i + 1).drop_last() =~= list@.take(i as int));
                    assert(line_views(lines@) =~= line_views(before) + line_views(added));
                }
                i = i + 1;
            }
            assert(list@.take(list@.len() as int) =~= list@);
        },
        _ => {},
    }
    lines
}


/// A facility record: latitude, longitude (bit patterns), facility name,
/// product name, and the quantity in thousand barrels per day.
pub type Facility = (u64, u64, String, String, Number);

/// The view of a facility record.
pub type FacilityView = (u64, u64, Seq<char>, Seq<char>, Number);

/// The view of a list of facility records.
pub open spec fn facility_views(s: Seq<Facility>) -> Seq<FacilityView> {
    s.map_values(|f: Facility| (f.0, f.1, f.2@, f.3@, f.4))
}

/// Which facilities are sought.
#[derive(Clone, Copy, Debug, PartialEq, Eq, Structural)]
pub enum Role {
    Producer,
    Consumer,
}

/// The names under which a producer's flow is read; the flow is required.
pub open spec fn producer_flow_names() -> Seq<Seq<char>> {
    seq!["Plant_Flow"@, "!"@]
}

/// The names under which a consumer's intake is read.
pub open spec fn consumer_amount_names() -> Seq<Seq<char>> {
    seq!["Plant_Flow"@, "Total_MW"@, "NG_MW"@, "Crude_MW"@]
}

/// The words whose presence in a key marks the facility's name.
pub open spec fn facility_name_names() -> Seq<Seq<char>> {
    seq!["Name"@, "name"@, "NAME"@, "Company"@]
}

/// The records of two parts in order; a failure in the first part comes first.
pub open spec fn join(
    a: Result<Seq<FacilityView>, ReadFailure>,
    b: Result<Seq<FacilityView>, ReadFailure>,
) -> Result<Seq<FacilityView>, ReadFailure> {
    match a {
        Err(e) => Err(e),
        Ok(x) => match b {
            Err(e) => Err(e),
            Ok(y) => Ok(x + y),
        },
    }
}

/// The record of a producer at (`x`, `y`) with these attributes: its flow
/// is read first, then its name.
pub open spec fn producer_record(x: u64, y: u64, attrs: Seq<DictEntry>) -> Result<
    Seq<FacilityView>,
    ReadFailure,
> {
    if !is_producer(attrs) {
        Ok(Seq::empty())
    } else {
        match number_reading(producer_flow_names(), attrs) {
            Err(e) => Err(e),
            Ok(n) => match containing_reading(facility_name_names(), attrs) {
                Err(e) => Err(e),
                Ok(name) => Ok(seq![(y, x, name, fuel_name(Fuel::NaturalGas), n)]),
            },
        }
    }
}

/// The record of a consumer at (`x`, `y`) with these attributes: its name
/// is read first, then its intake.
pub open spec fn consumer_record(x: u64, y: u64, attrs: Seq<DictEntry>) -> Result<
    Seq<FacilityView>,
    ReadFailure,
> {
    match consumed_fuel(attrs) {
        None => Ok(Seq::empty()),
        Some(f) => match containing_reading(facility_name_names(), attrs) {
            Err(e) => Err(e),
            Ok(name) => match number_reading(consumer_amount_names(), attrs) {
                Err(e) => Err(e),
                Ok(n) => Ok(seq![(y, x, name, fuel_name(f), n)]),
            },
        },
    }
}

/// The record of a feature in the given role, if its geometry has float
/// `x` and `y` and its attributes are a dictionary.
pub open spec fn feature_facility(role: Role, feature: Seq<DictEntry>, geometry: PickleValue) -> Result<
    Seq<FacilityView>,
    ReadFailure,
> {
    match geometry {
        PickleValue::Dict(g) => match (lookup(g@, "x"@), lookup(g@, "y"@)) {
            (Some(PickleValue::Float(x)), Some(PickleValue::Float(y))) => match lookup(
                feature,
                "attributes"@,
            ) {
                Some(PickleValue::Dict(attrs)) => match role {
                    Role::Producer => producer_record(x.bits, y.bits, attrs@),
                    Role::Consumer => consumer_record(x.bits, y.bits, attrs@),
                },
                _ => Ok(Seq::empty()),
            },
            _ => Ok(Seq::empty()),
        },
        _ => Ok(Seq::empty()),
    }
}

/// The facility records of a value in the given role, in traversal order,
/// or the first failure to read an attribute.
pub open spec fn facilities_of(role: Role, v: PickleValue) -> Result<
    Seq<FacilityView>,
    ReadFailure,
>
    decreases v,
{
    match v {
        PickleValue::Dict(entries) => match lookup(entries@, "geometry"@) {
            Some(g) => feature_facility(role, entries@, g),
            None => facilities_of_entries(role, entries@),
        },
        PickleValue::List(items) => facilities_of_items(role, items@),
        _ => Ok(Seq::empty()),
    }
}

/// The facility records of the values of a sequence of dictionary entries.
pub open spec fn facilities_of_entries(role: Role, entries: Seq<DictEntry>) -> Result<
    Seq<FacilityView>,
    ReadFailure,
>
    decreases entries,
{
    if entries.len() == 0 {
        Ok(Seq::empty())
    } else {
        join(
            facilities_of_entries(role, entries.drop_last()),
            facilities_of(role, entries.last().value),
        )
    }
}

/// The facility records of a sequence of values.
pub open spec fn facilities_of_items(role: Role, items: Seq<PickleValue>) -> Result<
    Seq<FacilityView>,
    ReadFailure,
>
    decreases items,
{
    if items.len() == 0 {
        Ok(Seq::empty())
    } else {
        join(facilities_of_items(role, items.drop_last()), facilities_of(role, items.last()))
    }
}

/// An executable outcome agrees with a stated one.
pub open spec fn outcome_is(
    r: Result<Vec<Facility>, ReadFailure>,
    s: Result<Seq<FacilityView>, ReadFailure>,
) -> bool {
    match (r, s) {
        (Ok(v), Ok(t)) => facility_views(v@) == t,
        (Err(e), Err(f)) => e == f,
        _ => false,
    }
}

/// A failure among the first `k` entries is the failure of all of them.
proof fn lemma_entries_failure_spreads(role: Role, entries: Seq<DictEntry>, k: int)
    requires
        0 <= k <= entries.len(),
        facilities_of_entries(role, entries.take(k)) is Err,
    ensures
        facilities_of_entries(role, entries) == facilities_of_entries(role, entries.take(k)),
    decreases entries.len() - k,
{
    if k < entries.len() {
        assert(entries.take(k + 1).drop_last() =~= entries.take(k));
        lemma_entries_failure_spreads(role, entries, k + 1);
    } else {
        assert(entries.take(k) =~= entries);
    }
}

/// A failure among the first `k` values is the failure of all of them.
proof fn lemma_items_failure_spreads(role: Role, items: Seq<PickleValue>, k: int)
    requires
        0 <= k <= items.len(),
        facilities_of_items(role, items.take(k)) is Err,
    ensures
        facilities_of_items(role, items) == facilities_of_items(role, items.take(k)),
    decreases items.len() - k,
{
    if k < items.len() {
        assert(items.take(k + 1).drop_last() =~= items.take(k));
        lemma_items_failure_spreads(role, items, k + 1);
    } else {
        assert(items.take(k) =~= items);
    }
}

/// The record of a producer with these attributes.
fn producer_of_attributes(x: u64, y: u64, attrs: &Vec<DictEntry>) -> (r: Result<
    Vec<Facility>,
    ReadFailure,
>)
    ensures
        outcome_is(r, producer_record(x, y, attrs@)),
{
    let mut out: Vec<Facility> = Vec::new();
    if !is_producer_exec(attrs) {
        assert(facility_views(out@) =~= Seq::empty());
        return Ok(out);
    }
    let flow_names: [&str; 2] = ["Plant_Flow", "!"];
    assert(texts(flow_names@) =~= producer_flow_names());
    let amount = match try_read_number(&flow_names, attrs) {
        Ok(n) => n,
        Err(e) => {
            return Err(e);
        },
    };
    let name_words: [&str; 4] = ["Name", "name", "NAME", "Company"];
    assert(texts(name_words@) =~= facility_name_names());
    let name = match try_read_string_containing(&name_words, attrs) {
        Ok(s) => s,
        Err(e) => {
            return Err(e);
        },
    };
    out.push((y, x, name, fuel_string(Fuel::NaturalGas), amount));
    assert(facility_views(out@) =~= producer_record(x, y, attrs@)->Ok_0);
    Ok(out)
}

/// The record of a consumer with these attributes.
fn consumer_of_attributes(x: u64, y: u64, attrs: &Vec<DictEntry>) -> (r: Result<
    Vec<Facility>,
    ReadFailure,
>)
    ensures
        outcome_is(r, consumer_record(x, y, attrs@)),
{
    let mut out: Vec<Facility> = Vec::new();
    let fuel = match consumed_fuel_exec(attrs) {
        Some(f) => f,
        None => {
            assert(facility_views(out@) =~= Seq::empty());
            return Ok(out);
        },
    };
    let name_words: [&str; 4] = ["Name", "name", "NAME", "Company"];
    assert(texts(name_words@) =~= facility_name_names());
    let name = match try_read_string_containing(&name_words, attrs) {
        Ok(s) => s,
        Err(e) => {
            return Err(e);
        },
    };
    let amount_names: [&str; 4] = ["Plant_Flow", "Total_MW", "NG_MW", "Crude_MW"];
    assert(texts(amount_names@) =~= consumer_amount_names());
    let amount = match try_read_number(&amount_names, attrs) {
        Ok(n) => n,
        Err(e) => {
            return Err(e);
        },
    };
    out.push((y, x, name, fuel_string(fuel), amount));
    assert(facility_views(out@) =~= consumer_record(x, y, attrs@)->Ok_0);
    Ok(out)
}

/// The record of a feature in the given role.
fn facility_of_feature(role: Role, feature: &Vec<DictEntry>, geometry: &PickleValue) -> (r:
    Result<Vec<Facility>, ReadFailure>)
    ensures
        outcome_is(r, feature_facility(role, feature@, *geometry)),
{
    if let PickleValue::Dict(g) = geometry {
        if let (Some(PickleValue::Float(x)), Some(PickleValue::Float(y))) = (
            dict_get(g, "x"),
            dict_get(g, "y"),
        ) {
            if let Some(PickleValue::Dict(attrs)) = dict_get(feature, "attributes") {
                return match role {
                    Role::Producer => producer_of_attributes(x.bits, y.bits, attrs),
                    Role::Consumer => consumer_of_attributes(x.bits, y.bits, attrs),
                };
            }
        }
    }
    let out: Vec<Facility> = Vec::new();
    assert(facility_views(out@) =~= Seq::empty());
    Ok(out)
}

/// The facility records of the data sea in the given role, or the first
/// failure to read an attribute.
pub fn collect_facilities(role: Role, data_sea: &PickleValue) -> (r: Result<
    Vec<Facility>,
    ReadFailure,
>)
    ensures
        outcome_is(r, facilities_of(role, *data_sea)),
    decreases data_sea,
{
    let mut points: Vec<Facility> = Vec::new();
    assert(facility_views(points@) =~= Seq::empty());
    match data_sea {
        PickleValue::Dict(map) => {
            match dict_get(map, "geometry") {
                Some(geometry) => {
                    return facility_of_feature(role, map, geometry);
                },
                None => {
                    let mut i: usize = 0;
                    while i < map.len()
                        invariant
                            i <= map@.len(),
                            *data_sea == PickleValue::Dict(*map),
                            lookup(map@, "geometry"@) is None,
                            facilities_of_entries(role, map@.take(i as int)) == Ok::<
                                Seq<FacilityView>,
                                ReadFailure,
                            >(facility_views(points@)),
                        decreases map.len() - i,
                    {
                        proof {
                            assert(decreases_to!(*data_sea => (*data_sea)->Dict_0));
                            assert(decreases_to!(*map => map@));
                            assert(decreases_to!(map@ => map@[i as int]));
                            assert(decreases_to!(map@[i as int] => map@[i as int].value));
                            assert(map@.take(i + 1).drop_last() =~= map@.take(i as int));
                        }
                        let mut sub = match collect_facilities(role, &map[i].value) {
                            Ok(s) => s,
                            Err(e) => {
                                proof {
                                    assert(map@.take(i + 1).last() == map@[i as int]);
                                    lemma_entries_failure_spreads(role, map@, i + 1);
                                }
                                return Err(e);
                            },
                        };
                        let ghost before = points@;
                        let ghost added = sub@;
                        points.append(&mut sub);
                        proof {
                            assert(facility_views(points@) =~= facility_views(before)
                                + facility_views(added));
                        }
                        i = i + 1;
                    }
                    assert(map@.take(map@.len() as int) =~= map@);
                },
            }
        },
        PickleValue::List(list) => {
            let mut i: usize = 0;
            while i < list.len()
                invariant
                    i <= list@.len(),
                    *data_sea == PickleValue::List(*list),
                    facilities_of_items(role, list@.take(i as int)) == Ok::<
                        Seq<FacilityView>,
                        ReadFailure,
                    >(facility_views(points@)),
                decreases list.len() - i,
            {
                proof {
                    assert(decreases_to!(*data_sea => (*data_sea)->List_0));
                    assert(decreases_to!(*list => list@));
                    assert(decreases_to!(list@ => list@[i as int]));
                    assert(list@.take(i + 1).drop_last() =~= list@.take(i as int));
                }
                let mut sub = match collect_facilities(role, &list[i]) {
                    Ok(s) => s,
                    Err(e) => {
                        proof {
                            lemma_items_failure_spreads(role, list@, i + 1);
                        }
                        return Err(e);
                    },
                };
                let ghost before = points@;
                let ghost added = sub@;
                points.append(&mut sub);
                proof {
                    assert(facility_views(points@) =~= facility_views(before) + facility_views(
                        added,
                    ));
                }
                i = i + 1;
            }
            assert(list@.take(list@.len() as int) =~= list@);
        },
        _ => {},
    }
    Ok(points)
}

/// All producers of the data sea, or the first failure to read one's
/// attributes: features whose geometry has float `x` and `y` and whose
/// attributes describe a gas processing plant with no key rating power.
pub fn try_get_all_producers(data_sea: &PickleValue) -> (r: Result<Vec<Facility>, ReadFailure>)
    ensures
        outcome_is(r, facilities_of(Role::Producer, *data_sea)),
{
    collect_facilities(Role::Producer, data_sea)
}

/// All producers of the data sea (latitude, longitude, name, product,
/// quantity), for data in which every producer has its flow.
pub fn get_all_producers(data_sea: &PickleValue) -> (points: Vec<Facility>)
    requires
        facilities_of(Role::Producer, *data_sea) is Ok,
    ensures
        Ok::<Seq<FacilityView>, ReadFailure>(facility_views(points@)) == facilities_of(
            Role::Producer,
            *data_sea,
        ),
{
    match collect_facilities(Role::Producer, data_sea) {
        Ok(v) => v,
        Err(_) => Vec::new(),
    }
}

/// All consumers of the data sea, or the first failure to read one's
/// attributes.
pub fn try_get_all_consumers(data_sea: &PickleValue) -> (r: Result<Vec<Facility>, ReadFailure>)
    ensures
        outcome_is(r, facilities_of(Role::Consumer, *data_sea)),
{
    collect_facilities(Role::Consumer, data_sea)
}

/// All consumers of the data sea (latitude, longitude, name, product,
/// quantity): power plants by their fuel, wastewater plants and petroleum
/// terminals by petroleum.
pub fn get_all_consumers(data_sea: &PickleValue) -> (points: Vec<Facility>)
    requires
        facilities_of(Role::Consumer, *data_sea) is Ok,
    ensures
        Ok::<Seq<FacilityView>, ReadFailure>(facility_views(points@)) == facilities_of(
            Role::Consumer,
            *data_sea,
        ),
{
    match collect_facilities(Role::Consumer, data_sea) {
        Ok(v) => v,
        Err(_) => Vec::new(),
    }
}

}
