//! The remote manifest: a named collection, its uploader, and the item groups
//! (beatmapsets) with their checksummed items (beatmaps), together with the
//! addresses the manifest is fetched from. The network fetch itself is the
//! caller's; this module owns the shapes and the address construction.

use vstd::prelude::*;

use crate::text::dec_int;
use crate::text::i32_to_string;

verus! {

/// Who published the remote collection.
#[derive(Clone, Debug)]
pub struct CollectionUploader {
    pub username: String,
}

/// One checksummed item inside an item group of the manifest.
#[derive(Clone, Debug)]
pub struct CollectionInfoBeatmap {
    pub checksum: String,
}

/// One item group of the manifest: the unit of download.
#[derive(Clone, Debug)]
pub struct CollectionInfoBeatmapsets {
    pub id: i32,
    pub beatmaps: Vec<CollectionInfoBeatmap>,
}

/// The remote collection's metadata and its ordered item groups.
#[derive(Clone, Debug)]
pub struct Collection {
    pub id: i32,
    pub name: String,
    pub uploader: CollectionUploader,
    pub beatmap_count: i16,
    pub beatmapsets: Vec<CollectionInfoBeatmapsets>,
}

/// The publication state a beatmap can be in on the catalog.
#[derive(Clone, Debug)]
pub enum BeatmapStatus {
    Ranked,
    Loved,
    Graveyard,
    Qualified,
    Unranked,
    Pending,
    Approved,
    NotSubmitted,
    Wip,
}

/// Display metadata of one item in the flattened manifest listing.
#[derive(Clone, Debug)]
pub struct Beatmap {
    pub checksum: String,
    pub version: String,
}

/// Display metadata of one item group in the flattened manifest listing.
#[derive(Clone, Debug)]
pub struct Beatmapset {
    pub id: i32,
    pub artist: String,
    pub title: String,
}

/// The flattened manifest listing: every item and every item group.
#[derive(Clone, Debug)]
pub struct CollectionBeatmaps {
    pub beatmaps: Vec<Beatmap>,
    pub beatmapsets: Vec<Beatmapset>,
}

/// Where the catalog serves collection data.
pub const BASE_URL: &'static str = "https://osucollector.com/api";

/// The address of a collection's metadata on the catalog.
pub fn collection_info_url(id: i32) -> (url: String)
    ensures
        url@ == BASE_URL@ + "/collections/"@ + dec_int(id as int),
{
    let mut url = String::from_str(BASE_URL);
    url.append("/collections/");
    let digits = i32_to_string(id);
    url.append(digits.as_str());
    url
}

/// The address of a collection's flattened item listing on the catalog.
pub fn collection_beatmaps_url(id: i32) -> (url: String)
    ensures
        url@ == BASE_URL@ + "/collections/"@ + dec_int(id as int) + "/beatmapsv3"@,
{
    let mut url = collection_info_url(id);
    url.append("/beatmapsv3");
    url
}

} // verus!
