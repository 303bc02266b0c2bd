//! Extraction of facilities and network features from a sea of GIS layers
//! read from a pickle file: point features, line features, producers and
//! consumers of natural gas and petroleum.
pub mod text;
pub mod pickle;
pub mod attributes;
pub mod classify;
pub mod gis_structs;
pub mod data_mgmr;
pub mod structs;
pub mod timing;
pub mod laws;
pub mod composition;
pub mod laws_text;
