# surge_stream

Models asset flows across a GIS network of features. The verified library
(`src/`) walks the "data sea" read from a pickle file and extracts:

- point features (latitude, longitude, `key=value` listing of attributes),
- line features (one polyline per path, railroads left out),
- producers (gas processing plants) and consumers (power plants by fuel,
  wastewater plants and petroleum terminals), with name and quantity.

The library works on a plain model of pickle values (`pickle::PickleValue`);
floats are carried by their bit patterns and display texts. The program in
`app/` reads the pickle and TOML files, converts the values into the model,
calls the library, and writes a GeoPackage.

Layout: `src/text.rs` (text helpers), `src/pickle.rs` (value model and
dictionary lookup), `src/attributes.rs` (attribute listing and reads),
`src/classify.rs` (producer/consumer rules), `src/data_mgmr.rs`
(extraction), `src/laws.rs` (properties proved of every input),
`src/timing.rs`, `src/structs.rs`, `src/gis_structs.rs`.
