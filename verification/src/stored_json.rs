//! JSON as the store keeps it, in columns of text.

use crate::document::{Document, Fields};
#[allow(unused_imports)]
use crate::document::{distinct_entries, lemma_table_writable, Tree};
use crate::json::read_json;
#[allow(unused_imports)]
use crate::outside::{blake3_hex, json_parsed, json_written};
use crate::outside::{decode_text, hash_hex, json_value, write_json};
use crate::noted_item::write_item;
#[allow(unused_imports)]
use crate::noted_item::{item_form, law_items_are_written};
use crate::store::StoreError;
use crate::text::str_equal;
use vstd::prelude::*;
#[allow(unused_imports)]
use vstd::utf8::{decode_utf8, decode_utf8_encode_utf8, encode_utf8};

verus! {

/// What JSON notation in the store denotes.
pub open spec fn denoted(text: Seq<char>) -> Option<Tree> {
    json_parsed(encode_utf8(text))
}

/// The JSON notation of contents.
pub open spec fn notation(contents: Tree) -> Seq<char> {
    decode_utf8(json_written(contents))
}

/// Reads JSON notation in the store.
pub fn read_stored(text: &str) -> (r: Result<Document, StoreError>)
    ensures
        match r {
            Ok(document) => denoted(text@) == Some(document@) && document@.has_notation(),
            Err(error) => denoted(text@) is None && error is Json,
        },
{
    match read_json(text.as_bytes()) {
        Some(document) => Ok(document),
        None => Err(StoreError::Json("malformed JSON".to_owned())),
    }
}

/// Writes the JSON notation of a document.
pub fn write_stored(document: &Document) -> (r: String)
    requires
        document@.has_notation(),
    ensures
        r@ == notation(document@),
        document@.writable(127) ==> denoted(r@) == Some(document@),
{
    let bytes = write_json(&json_value(document));
    proof {
        decode_utf8_encode_utf8(bytes@);
    }
    match decode_text(bytes.as_slice()) {
        Ok(text) => text,
        Err(_) => {
            assert(false);
            String::new()
        },
    }
}

/// What is kept of a request to approve an item.
pub open spec fn approval_tree(item: Tree, digest: Seq<char>) -> Tree {
    Tree::Table(seq![("item"@, item), ("request_digest"@, Tree::Text(digest))])
}

/// The digest of the request that an operation was prepared for, if one is kept.
pub open spec fn request_digest_of(contents: Tree) -> Option<Seq<char>> {
    match contents.field("request_digest"@) {
        Some(digest) => digest.as_text(),
        None => None,
    }
}

/// Why what is kept of a request to approve an item cannot be read.
pub enum ApprovalFault {
    /// It is no JSON, or holds no item.
    Malformed,
    /// The digest of the request is missing.
    NoDigest,
}

/// The item that a request approves, as it is written, and the digest of the request.
/// Where the item was kept alone, its own digest stands for that of the request.
pub open spec fn approval_of(contents: Tree) -> Result<(Tree, Seq<char>), ApprovalFault> {
    match contents.field("item"@) {
        Some(item) => match (item_form(item), request_digest_of(contents)) {
            (Some(item), Some(digest)) => Ok((item, digest)),
            (Some(_), None) => Err(ApprovalFault::NoDigest),
            (None, _) => Err(ApprovalFault::Malformed),
        },
        None => match item_form(contents) {
            Some(item) => Ok((item, blake3_hex(json_written(item)))),
            None => Err(ApprovalFault::Malformed),
        },
    }
}

/// Notes down a request to approve an item.
pub fn note_approval(item: Document, request_digest: &str) -> (r: String)
    requires
        item@.has_notation(),
    ensures
        r@ == notation(approval_tree(item@, request_digest@)),
        item@.writable(126) ==> denoted(r@) == Some(approval_tree(item@, request_digest@)),
        item@.writable(126) ==> (item_form(item@) matches Some(form) ==> approval_kept(r@) == Ok::<
            (Tree, Seq<char>),
            ApprovalFault,
        >((form, request_digest@))),
{
    let ghost approved = item@;
    let mut fields = Fields::new();
    fields.put("item", item);
    fields.put("request_digest", Document::Text(request_digest.to_owned()));
    proof {
        let entries = fields@;
        assert(Tree::Table(entries) == approval_tree(approved, request_digest@)) by {
            assert(entries =~= seq![
                ("item"@, approved),
                ("request_digest"@, Tree::Text(request_digest@)),
            ]);
        }
        reveal_strlit("item");
        reveal_strlit("request_digest");
        assert("item"@.len() != "request_digest"@.len());
        assert(entries[0].0 == "item"@ && entries[1].0 == "request_digest"@);
        assert(distinct_entries(entries));
        assert forall|i: int| 0 <= i < entries.len() implies (
        #[trigger] entries[i]).1.has_notation() by {
            assert(entries[1].1 == Tree::Text(request_digest@));
            assert(entries[0].1 == approved);
        }
        assert(Tree::Table(entries).has_notation());
        if approved.writable(126) {
            lemma_table_writable(entries, 126);
        }
        law_requests_are_read_back(approved, request_digest@);
    }
    write_stored(&fields.build())
}

/// The digest of the request that an operation was prepared for, if one is kept.
pub fn read_request_digest(expected: &str) -> (r: Result<Option<String>, StoreError>)
    ensures
        match r {
            Ok(digest) => denoted(expected@) is Some && match request_digest_of(
                denoted(expected@)->Some_0,
            ) {
                Some(kept) => digest matches Some(text) && text@ == kept,
                None => digest is None,
            },
            Err(error) => denoted(expected@) is None && error is Json,
        },
{
    match read_stored(expected) {
        Ok(document) => Ok(
            match document.get("request_digest") {
                Some(digest) => digest.read_text(),
                None => None,
            },
        ),
        Err(error) => Err(error),
    }
}

/// What is kept of a request to approve an item.
pub open spec fn approval_kept(expected: Seq<char>) -> Result<(Tree, Seq<char>), ApprovalFault> {
    match denoted(expected) {
        None => Err(ApprovalFault::Malformed),
        Some(contents) => approval_of(contents),
    }
}

/// The error says why a request cannot be read.
pub open spec fn approval_error(error: StoreError, fault: ApprovalFault) -> bool {
    match fault {
        ApprovalFault::Malformed => error is Json,
        ApprovalFault::NoDigest => error.broken("approval intent omitted request digest"@),
    }
}

/// Reads what is kept of a request to approve an item: the item, and the digest of the
/// request.
pub fn read_approval(expected: &str) -> (r: Result<(Document, String), StoreError>)
    ensures
        match approval_kept(expected@) {
            Ok((item, digest)) => r matches Ok(kept) && kept.0@ == item && kept.1@ == digest,
            Err(fault) => r matches Err(error) && approval_error(error, fault),
        },
{
    let document = match read_stored(expected) {
        Ok(document) => document,
        Err(error) => {
            return Err(error);
        },
    };
    let noted = document.get("item");
    let item = match write_item(
        match noted {
            Some(item) => item,
            None => &document,
        },
    ) {
        Some(item) => item,
        None => {
            return Err(StoreError::Json("malformed item".to_owned()));
        },
    };
    if noted.is_none() {
        proof {
            law_items_are_written(document@);
        }
        let digest = hash_hex(write_json(&json_value(&item)).as_slice());
        return Ok((item, digest));
    }
    let digest = match document.get("request_digest") {
        Some(digest) => digest.read_text(),
        None => None,
    };
    match digest {
        Some(digest) => Ok((item, digest)),
        None => Err(StoreError::Integrity("approval intent omitted request digest".to_owned())),
    }
}

/// A request that was noted down is read back.
pub proof fn law_requests_are_read_back(item: Tree, digest: Seq<char>)
    ensures
        request_digest_of(approval_tree(item, digest)) == Some(digest),
        item_form(item) matches Some(form) ==> approval_of(approval_tree(item, digest)) == Ok::<
            (Tree, Seq<char>),
            ApprovalFault,
        >((form, digest)),
{
    let entries = seq![("item"@, item), ("request_digest"@, Tree::Text(digest))];
    reveal_strlit("item");
    reveal_strlit("request_digest");
    assert("item"@.len() != "request_digest"@.len());
    reveal_with_fuel(crate::document::lookup, 3);
    assert(entries.drop_first()[0] == entries[1]);
}

} // verus!
