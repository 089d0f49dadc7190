//! The shapes returned by the reverse place-lookup collaborator, as plain
//! records: the way segmenter classifies every track point by these.

use vstd::prelude::*;

verus! {

/// A structured address of a place, as the lookup collaborator reports it.
#[derive(Clone, Debug)]
pub struct Address {
    pub road: String,
    pub tourism: Option<String>,
    pub amenity: Option<String>,
    pub suburb: Option<String>,
    pub hamlet: Option<String>,
    pub town: Option<String>,
    pub city: Option<String>,
    pub municipality: Option<String>,
    pub state: String,
    pub iso3166_2_lvl4: String,
    pub postcode: Option<String>,
    pub country: String,
    pub country_code: String,
}

/// Extra tags of a place; only the surface is of interest here.
#[derive(Clone, Debug)]
pub struct ExtraTags {
    pub surface: Option<String>,
}

/// The classification of one coordinate: the kind and identity of the
/// place it falls on, with its address and tags.
#[derive(Clone, Debug)]
pub struct NominatimPlace {
    pub osm_type: String,
    pub osm_id: u64,
    pub display_name: String,
    pub category: Option<String>,
    pub name: Option<String>,
    pub address: Address,
    pub extratags: ExtraTags,
}

/// The detail record of a place, looked up by its identity.
#[derive(Clone, Debug)]
pub struct NominatimDetailsPlace {
    pub osm_type: String,
    pub osm_id: u64,
    pub localname: String,
    pub extratags: ExtraTags,
}

} // verus!
