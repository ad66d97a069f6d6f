//! Descriptive metadata of a feature collection: its extent and providers.
use vstd::prelude::*;

use crate::crs::CrsCode;
use crate::link::Link;

verus! {

/// A body of resources that belong or are used together.
#[derive(Debug, PartialEq)]
pub struct Collection {
    pub id: String,
    pub title: Option<String>,
    pub description: Option<String>,
    pub keywords: Option<Vec<String>>,
    pub extent: Option<Extent>,
    pub item_type: Option<ItemType>,
    pub crs: Option<Vec<CrsCode>>,
    pub storage_crs: Option<CrsCode>,
    /// The coordinate epoch of the storage CRS, as decimal text.
    pub storage_crs_coordinate_epoch: Option<String>,
    pub links: Vec<Link>,
    pub stac_version: Option<String>,
    pub stac_extensions: Option<Vec<String>>,
    pub licence: Option<String>,
    pub providers: Option<Vec<Provider>>,
    pub summaries: Option<Summaries>,
}

/// Summaries of the collection's items, keyed by property name.
#[derive(Debug, PartialEq)]
pub struct Summaries {
    pub inner: serde_json::Map<String, serde_json::Value>,
}

/// The spatial and temporal extent of the features of a collection.
#[derive(Debug, Clone, PartialEq, Eq)]
pub struct Extent {
    pub spatial: Option<SpatialExtent>,
    pub temporal: Option<TemporalExtent>,
}

/// Bounding boxes, each of 4 or 6 ordinates kept as decimal text, in `crs`.
#[derive(Debug, Clone, PartialEq, Eq)]
pub struct SpatialExtent {
    pub bbox: Option<Vec<Vec<String>>>,
    pub crs: Option<CrsCode>,
}

/// Time intervals as ISO-8601 texts, in the temporal reference system `trs`.
#[derive(Debug, Clone, PartialEq, Eq)]
pub struct TemporalExtent {
    pub interval: Option<Vec<String>>,
    pub trs: Option<String>,
}

/// What the items of a collection are.
#[derive(Debug, Clone, Copy, PartialEq, Eq, Structural)]
pub enum ItemType {
    Feature,
    Unknown,
}

/// An organisation that captures, processes or hosts the content of a collection.
#[derive(Debug, Clone, PartialEq, Eq)]
pub struct Provider {
    pub name: String,
    pub description: Option<String>,
    pub roles: Option<ProviderRole>,
    pub url: Option<String>,
}

#[derive(Debug, Clone, Copy, PartialEq, Eq, Structural)]
pub enum ProviderRole {
    Licensor,
    Producer,
    Processor,
    Host,
}

} // verus!
