//! The record that callers of the store see.

use vstd::prelude::*;
use crate::model::RecordModel;

verus! {

/// A short identifier and the URL it redirects to.
#[derive(Clone, Debug, PartialEq, Eq)]
pub struct ShortUrlRecord {
    pub short_id: String,
    pub original_url: String,
}

impl View for ShortUrlRecord {
    type V = RecordModel;

    open spec fn view(&self) -> RecordModel {
        RecordModel { short_id: self.short_id@, original_url: self.original_url@ }
    }
}

impl ShortUrlRecord {
    pub fn new(short_id: &str, original_url: &str) -> (r: ShortUrlRecord)
        ensures
            r.short_id@ == short_id@,
            r.original_url@ == original_url@,
    {
        ShortUrlRecord { short_id: short_id.to_owned(), original_url: original_url.to_owned() }
    }
}

/// The records of `records`, each by its view.
pub open spec fn records_of(records: Seq<ShortUrlRecord>) -> Seq<RecordModel> {
    records.map_values(|r: ShortUrlRecord| r@)
}

/// The strings of `keys`, each by its view.
pub open spec fn ids_of(keys: Seq<String>) -> Seq<Seq<char>> {
    keys.map_values(|k: String| k@)
}

} // verus!
