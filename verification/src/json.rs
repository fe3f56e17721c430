//! Documents in JSON notation.

use crate::document::Document;
use crate::outside::{json_document, json_value, parse_json, write_json};
#[allow(unused_imports)]
use crate::outside::{json_parsed, json_written};
use vstd::prelude::*;

verus! {

/// Reads JSON notation, if it is well formed.
pub fn read_json(bytes: &[u8]) -> (r: Option<Document>)
    ensures
        r is Some <==> json_parsed(bytes@) is Some,
        r matches Some(document) ==> json_parsed(bytes@) == Some(document@)
            && document@.has_notation(),
{
    match parse_json(bytes) {
        Ok(value) => Some(json_document(value)),
        Err(_) => None,
    }
}

/// Writes the JSON notation of a document, if it has one. Where all numbers are whole and
/// it does not nest too deep, it reads back as the document.
pub fn to_json(document: &Document) -> (r: Option<Vec<u8>>)
    ensures
        r is Some <==> document@.has_notation(),
        r matches Some(bytes) ==> bytes@ == json_written(document@) && (document@.writable(127)
            ==> json_parsed(bytes@) == Some(document@)),
{
    if document.can_write() {
        Some(write_json(&json_value(document)))
    } else {
        None
    }
}

} // verus!
