//! A lens rule: the metadata fields a file must have, and the values to
//! write in their place.

use vstd::prelude::*;
use indexmap::IndexMap;
use crate::json::{JsonValue, display_text};
use crate::ordmap::{FieldMap, field_entries, fields_new, fields_clone};

verus! {

/// One rule: when every `tomatch` field matches a file's metadata, the
/// `modify` fields are written to it. On disk the first half is called
/// `match`.
#[derive(Debug, Clone)]
pub struct LensMapEntry {
    pub tomatch: FieldMap,
    pub modify: FieldMap,
}

/// The lens fields that a rule made from a file matches on, in order.
pub const LENS_MAP_FIELDS: [&'static str; 4] = ["FocalLength", "LensMake", "LensModel", "LensID"];

/// The names in [`LENS_MAP_FIELDS`].
pub open spec fn lens_map_fields() -> Seq<Seq<char>> {
    seq!["FocalLength"@, "LensMake"@, "LensModel"@, "LensID"@]
}

/// Rule name to rule, in the order the user made them.
pub type LensMap = IndexMap<String, LensMapEntry>;

impl Default for LensMapEntry {
    fn default() -> (r: LensMapEntry)
        ensures
            field_entries(r.tomatch).len() == 0,
            field_entries(r.modify).len() == 0,
    {
        LensMapEntry { tomatch: fields_new(), modify: fields_new() }
    }
}

impl LensMapEntry {
    /// A copy with the same fields, in the same order.
    pub fn duplicate(&self) -> (r: LensMapEntry)
        ensures
            field_entries(r.tomatch) == field_entries(self.tomatch),
            field_entries(r.modify) == field_entries(self.modify),
    {
        LensMapEntry { tomatch: fields_clone(&self.tomatch), modify: fields_clone(&self.modify) }
    }
}

/// Coerce a JSON value to its plain-text representation. Strings are
/// returned without quoting; everything else as JSON displays it.
pub fn json_to_string(value: &JsonValue) -> (r: String)
    ensures
        r@ == display_text(value@),
{
    match value {
        JsonValue::Text(s) => s.clone(),
        JsonValue::Number(s) => s.clone(),
        JsonValue::Other(s) => s.clone(),
    }
}

} // verus!
