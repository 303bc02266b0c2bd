use surge_stream::attributes::{
    read_number, read_string, read_string_containing, try_read_number, try_read_string,
    try_read_string_containing, Number, ReadFailure,
};
use surge_stream::data_mgmr::{
    get_all_consumers, get_all_lines, get_all_points, get_all_producers, try_get_all_consumers,
    try_get_all_producers,
};
use surge_stream::pickle::{DictEntry, PickleFloat, PickleKey, PickleValue};
use surge_stream::structs::Product;
use surge_stream::text::{i64_decimal, str_contains, str_ends_with, str_equal};
use surge_stream::timing::elapsed_parts;

fn float(f: f64) -> PickleValue {
    PickleValue::Float(PickleFloat { bits: f.to_bits(), text: format!("{}", f) })
}

fn text(s: &str) -> PickleValue {
    PickleValue::Text(s.to_string())
}

fn entry(key: &str, value: PickleValue, value_debug: &str) -> DictEntry {
    DictEntry {
        key: PickleKey::Text(key.to_string()),
        key_text: format!("{:?}", key),
        key_debug: format!("String({:?})", key),
        value,
        value_debug: value_debug.to_string(),
    }
}

fn float_entry(key: &str, f: f64) -> DictEntry {
    entry(key, float(f), &format!("F64({:?})", f))
}

fn text_entry(key: &str, s: &str) -> DictEntry {
    entry(key, text(s), &format!("String({:?})", s))
}

fn geometry_xy(x: f64, y: f64) -> PickleValue {
    PickleValue::Dict(vec![float_entry("x", x), float_entry("y", y)])
}

fn feature(attrs: Vec<DictEntry>, geometry: PickleValue) -> PickleValue {
    PickleValue::Dict(vec![
        entry("attributes", PickleValue::Dict(attrs), "Dict({..})"),
        entry("geometry", geometry, "Dict({..})"),
    ])
}

fn layers(features: Vec<PickleValue>) -> PickleValue {
    PickleValue::Dict(vec![entry("layer", PickleValue::List(features), "List([..])")])
}

fn bits(f: f64) -> u64 {
    f.to_bits()
}

#[test]
fn points_carry_lat_lon_and_attribute_listing() {
    let int_key = DictEntry {
        key: PickleKey::I64(7),
        key_text: "7".to_string(),
        key_debug: "I64(7)".to_string(),
        value: PickleValue::I64(3),
        value_debug: "I64(3)".to_string(),
    };
    let f1 = feature(vec![int_key, text_entry("NAME", "A")], geometry_xy(1.5, 2.5));
    let no_float = feature(
        vec![text_entry("NAME", "B")],
        PickleValue::Dict(vec![entry("x", PickleValue::I64(1), "I64(1)"), float_entry("y", 2.0)]),
    );
    let sea = layers(vec![f1, no_float, PickleValue::NoneValue]);
    let points = get_all_points(&sea);
    assert_eq!(points.len(), 1);
    assert_eq!(points[0].0, bits(2.5));
    assert_eq!(points[0].1, bits(1.5));
    assert_eq!(points[0].2, "7=I64(3)\nNAME=String(\"A\")\n");
}

#[test]
fn points_of_nested_features_in_order() {
    let a = feature(vec![], geometry_xy(1.0, 2.0));
    let b = feature(vec![], geometry_xy(3.0, 4.0));
    let c = feature(vec![], geometry_xy(5.0, 6.0));
    let sea = PickleValue::List(vec![
        layers(vec![a, b]),
        PickleValue::Dict(vec![entry("more", PickleValue::List(vec![c]), "List([..])")]),
    ]);
    let points = get_all_points(&sea);
    let lats: Vec<u64> = points.iter().map(|p| p.0).collect();
    assert_eq!(lats, vec![bits(2.0), bits(4.0), bits(6.0)]);
    assert!(points.iter().all(|p| p.2.is_empty()));
}

#[test]
fn feature_is_not_searched_further() {
    // A feature's own entries are not searched for nested features.
    let inner = feature(vec![], geometry_xy(9.0, 9.0));
    let outer = PickleValue::Dict(vec![
        entry("geometry", PickleValue::NoneValue, "None"),
        entry("children", PickleValue::List(vec![inner]), "List([..])"),
    ]);
    assert!(get_all_points(&outer).is_empty());
}

#[test]
fn non_container_values_have_no_points() {
    assert!(get_all_points(&PickleValue::I64(4)).is_empty());
    assert!(get_all_points(&PickleValue::Tuple(vec![feature(vec![], geometry_xy(1.0, 1.0))])).is_empty());
}

fn coordinate(x: f64, y: f64) -> PickleValue {
    PickleValue::List(vec![float(x), float(y)])
}

fn paths_geometry(paths: Vec<Vec<PickleValue>>) -> PickleValue {
    let paths_value =
        PickleValue::List(paths.into_iter().map(PickleValue::List).collect());
    PickleValue::Dict(vec![entry("paths", paths_value, "List([..])")])
}

#[test]
fn lines_keep_paths_with_two_points() {
    let f = feature(
        vec![text_entry("TYPE", "Pipeline")],
        paths_geometry(vec![
            vec![coordinate(1.0, 2.0), coordinate(3.0, 4.0), text("junk"), PickleValue::List(vec![float(7.0)])],
            vec![coordinate(5.0, 6.0)],
            vec![coordinate(7.0, 8.0), PickleValue::List(vec![float(9.0), PickleValue::I64(1)]), coordinate(9.0, 10.0)],
        ]),
    );
    let lines = get_all_lines(&layers(vec![f]));
    assert_eq!(lines.len(), 2);
    assert_eq!(lines[0].msg, "TYPE=String(\"Pipeline\")\n");
    assert_eq!(lines[0].geom, vec![(bits(1.0), bits(2.0)), (bits(3.0), bits(4.0))]);
    assert_eq!(lines[1].geom, vec![(bits(7.0), bits(8.0)), (bits(9.0), bits(10.0))]);
    for l in lines.iter() {
        assert!(l.geom.len() >= 2);
        assert!(!l.msg.contains("Railroad"));
    }
}

#[test]
fn railroad_lines_are_skipped() {
    let rail = feature(
        vec![text_entry("TYPE", "Railroad Track")],
        paths_geometry(vec![vec![coordinate(1.0, 2.0), coordinate(3.0, 4.0)]]),
    );
    let pipe = feature(
        vec![text_entry("TYPE", "Pipe")],
        paths_geometry(vec![vec![coordinate(1.0, 2.0), coordinate(3.0, 4.0)]]),
    );
    let lines = get_all_lines(&PickleValue::List(vec![rail, pipe]));
    assert_eq!(lines.len(), 1);
    assert_eq!(lines[0].msg, "TYPE=String(\"Pipe\")\n");
}

#[test]
fn lines_need_a_paths_list() {
    let f = feature(vec![], geometry_xy(1.0, 2.0));
    assert!(get_all_lines(&f).is_empty());
}

fn gas_plant_attrs(flow: DictEntry) -> Vec<DictEntry> {
    vec![
        text_entry("Company_Name", "Acme Midstream"),
        flow,
        text_entry("TYPE", "GAS PROCESSING PLANT"),
    ]
}

#[test]
fn producers_are_gas_processing_plants() {
    let plant = feature(gas_plant_attrs(float_entry("Plant_Flow", 12.5)), geometry_xy(-95.0, 30.0));
    let other = feature(vec![text_entry("TYPE", "Refinery")], geometry_xy(0.0, 0.0));
    let sea = layers(vec![plant, other]);
    let producers = get_all_producers(&sea);
    assert_eq!(producers.len(), 1);
    let p = &producers[0];
    assert_eq!(p.0, bits(30.0));
    assert_eq!(p.1, bits(-95.0));
    assert_eq!(p.2, "Acme Midstream");
    assert_eq!(p.3, "natural gas");
    assert_eq!(p.4, Number::Float(bits(12.5)));
    // every producer is also a point, at the same place
    let points = get_all_points(&sea);
    assert!(points.iter().any(|q| q.0 == p.0 && q.1 == p.1));
}

#[test]
fn producer_flow_may_be_an_integer() {
    let plant = feature(gas_plant_attrs(entry("Plant_Flow", PickleValue::I64(40), "I64(40)")), geometry_xy(1.0, 1.0));
    let producers = get_all_producers(&plant);
    assert_eq!(producers[0].4, Number::Int(40));
}

#[test]
fn power_rated_features_are_not_producers() {
    let mut attrs = gas_plant_attrs(float_entry("Plant_Flow", 1.0));
    attrs.push(float_entry("Total_mw", 10.0));
    let plant = feature(attrs, geometry_xy(1.0, 1.0));
    assert!(get_all_producers(&plant).is_empty());
}

#[test]
fn producer_without_flow_fails() {
    let plant = feature(gas_plant_attrs(text_entry("Other", "x")), geometry_xy(1.0, 1.0));
    assert!(matches!(try_get_all_producers(&plant), Err(ReadFailure::MissingAttribute)));
}

#[test]
fn producer_with_big_flow_fails() {
    let big = entry("Plant_Flow", PickleValue::BigInt("123456789012345678901234567890".to_string()), "Int(123456789012345678901234567890)");
    let plant = feature(gas_plant_attrs(big), geometry_xy(1.0, 1.0));
    assert!(matches!(try_get_all_producers(&plant), Err(ReadFailure::BigInteger)));
}

#[test]
fn power_plants_consume_their_fuel() {
    let petroleum = feature(
        vec![
            entry("NG_MW", PickleValue::I64(0), "I64(0)"),
            text_entry("Plant_Name", "Oil Burner"),
            text_entry("PrimSource", "petroleum power plant"),
            entry("Total_MW", PickleValue::I64(50), "I64(50)"),
        ],
        geometry_xy(2.0, 3.0),
    );
    let gas = feature(
        vec![
            text_entry("Capacity", "300 MW"),
            text_entry("Name", "Gas Works"),
            text_entry("Kind", "Gas Processing Plant"),
        ],
        geometry_xy(4.0, 5.0),
    );
    let consumers = get_all_consumers(&PickleValue::List(vec![petroleum, gas]));
    assert_eq!(consumers.len(), 2);
    assert_eq!(consumers[0].2, "Oil Burner");
    assert_eq!(consumers[0].3, "petroleum");
    assert_eq!(consumers[0].4, Number::Int(50));
    assert_eq!(consumers[1].2, "Gas Works");
    assert_eq!(consumers[1].3, "natural gas");
    assert_eq!(consumers[1].4, Number::Float(0));
}

#[test]
fn last_fuel_mention_decides() {
    let plant = feature(
        vec![
            text_entry("A", "petroleum power plant"),
            text_entry("B", "gas process plant"),
            entry("X_MW", PickleValue::I64(1), "I64(1)"),
        ],
        geometry_xy(0.0, 0.0),
    );
    let consumers = get_all_consumers(&plant);
    assert_eq!(consumers[0].3, "natural gas");
    assert_eq!(consumers[0].2, "");
}

#[test]
fn wastewater_and_terminals_consume_petroleum() {
    let ww = feature(vec![text_entry("TYPE", "Wastewater Treatment Plant")], geometry_xy(1.0, 1.0));
    let term = feature(vec![text_entry("LAYER", "PetroleumProduct_Terminals")], geometry_xy(2.0, 2.0));
    let neither = feature(vec![text_entry("TYPE", "Wastewater pond")], geometry_xy(3.0, 3.0));
    let consumers = get_all_consumers(&PickleValue::List(vec![ww, term, neither]));
    assert_eq!(consumers.len(), 2);
    assert!(consumers.iter().all(|c| c.3 == "petroleum"));
    assert_eq!(consumers[0].4, Number::Float(0));
}

#[test]
fn consumer_with_big_name_fails() {
    let plant = feature(
        vec![
            entry("Name", PickleValue::BigInt("99999999999999999999".to_string()), "Int(99999999999999999999)"),
            text_entry("TYPE", "Wastewater Plant"),
        ],
        geometry_xy(1.0, 1.0),
    );
    assert!(matches!(try_get_all_consumers(&plant), Err(ReadFailure::BigInteger)));
}

#[test]
fn read_number_takes_first_name_present() {
    let attrs = vec![float_entry("B", 2.0), entry("C", PickleValue::I64(-3), "I64(-3)"), text_entry("A", "t")];
    assert_eq!(read_number(&["A", "C", "B"], &attrs), Number::Int(-3));
    assert_eq!(read_number(&["B", "C"], &attrs), Number::Float(bits(2.0)));
    assert_eq!(read_number(&["Z"], &attrs), Number::Float(0));
    assert_eq!(try_read_number(&["Z", "!"], &attrs), Err(ReadFailure::MissingAttribute));
    assert_eq!(try_read_number(&["B", "!"], &attrs), Ok(Number::Float(bits(2.0))));
}

#[test]
fn read_string_renders_values() {
    let attrs = vec![
        float_entry("F", 0.25),
        entry("I", PickleValue::I64(-42), "I64(-42)"),
        entry("B", PickleValue::Bytes(vec![104, 105, 255]), "Bytes([104, 105, 255])"),
        entry("N", PickleValue::NoneValue, "None"),
        text_entry("S", "str"),
    ];
    assert_eq!(read_string(&["F"], &attrs), "0.25");
    assert_eq!(read_string(&["I"], &attrs), "-42");
    assert_eq!(read_string(&["B"], &attrs), "hi\u{FFFD}");
    assert_eq!(read_string(&["N", "S"], &attrs), "str");
    assert_eq!(read_string(&["missing"], &attrs), "");
    assert!(matches!(try_read_string(&["missing", "!"], &attrs), Err(ReadFailure::MissingAttribute)));
}

#[test]
fn read_string_containing_matches_key_debug_text() {
    let attrs = vec![
        entry("Owner_Name", PickleValue::NoneValue, "None"),
        text_entry("Plant_Name", "Big Plant"),
        text_entry("Name", "Later"),
    ];
    assert_eq!(read_string_containing(&["Name"], &attrs), "Big Plant");
    // the key is matched by its debug text, which includes `String(`
    assert_eq!(read_string_containing(&["String(\"Name"], &attrs), "Later");
    assert_eq!(read_string_containing(&["Nothing"], &attrs), "");
    let big = vec![entry("name", PickleValue::BigInt("1".repeat(30)), "Int(..)")];
    assert_eq!(try_read_string_containing(&["name"], &big), Err(ReadFailure::BigInteger));
}

#[test]
fn elapsed_parts_splits_time() {
    assert_eq!(elapsed_parts(125, 125_042), (2, 5, 42));
    assert_eq!(elapsed_parts(0, 999), (0, 0, 999));
    assert_eq!(elapsed_parts(3600, 3_600_000), (60, 0, 0));
}

#[test]
fn decimal_text_of_integers() {
    assert_eq!(i64_decimal(0), "0");
    assert_eq!(i64_decimal(1234), "1234");
    assert_eq!(i64_decimal(-7), "-7");
    assert_eq!(i64_decimal(i64::MIN), i64::MIN.to_string());
    assert_eq!(i64_decimal(i64::MAX), i64::MAX.to_string());
}

#[test]
fn text_helpers() {
    assert!(str_contains("gas processing plant", "process"));
    assert!(str_contains("abc", ""));
    assert!(!str_contains("ab", "abc"));
    assert!(str_ends_with("Total_MW", "_MW"));
    assert!(!str_ends_with("MW", "_MW"));
    assert!(str_equal("!", "!"));
    assert!(!str_equal("!", "!!"));
}

#[test]
fn product_record() {
    let p = Product { id: 3, name: "crude".to_string() };
    let q = p.clone();
    assert_eq!(q.id, 3);
    assert_eq!(q.name, "crude");
}
