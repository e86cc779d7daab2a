use vstd::prelude::*;

use crate::errors::SyncError;

verus! {

/// The content of the remote remap feed, as a function of the feed's text:
/// nothing when the text is not a JSON object of integer values, otherwise
/// the mapping from old-identifier key to new identifier.
pub uninterp spec fn changelog_of(body: Seq<char>) -> Option<Map<Seq<char>, i64>>;

/// The decoded entries agree with the mapping `m`: every entry is a pair of
/// `m`, the keys are pairwise distinct, and every key of `m` occurs. Nothing
/// is said about the order of the entries.
pub open spec fn entries_match(entries: Seq<(String, i64)>, m: Map<Seq<char>, i64>) -> bool {
    &&& forall|i: int|
        0 <= i < entries.len() ==> m.contains_pair((#[trigger] entries[i]).0@, entries[i].1)
    &&& forall|i: int, j: int|
        0 <= i < j < entries.len() ==> (#[trigger] entries[i]).0@ != (#[trigger] entries[j]).0@
    &&& forall|k: Seq<char>|
        m.dom().contains(k) ==> exists|i: int|
            0 <= i < entries.len() && (#[trigger] entries[i]).0@ == k
}

/// Relies on `serde_json::from_str::<HashMap<String, i64>>`: whether the
/// text decodes, and the key/value pairs it decodes to, depend on the text
/// alone. The order in which the map hands the pairs out is arbitrary and
/// nothing is claimed about it.
#[verifier::external_body]
fn decode_changelog(body: &str) -> (r: Result<Vec<(String, i64)>, serde_json::Error>)
    ensures
        r is Ok <==> changelog_of(body@) is Some,
        r is Ok ==> entries_match(r->Ok_0@, changelog_of(body@)->Some_0),
{
    serde_json::from_str::<std::collections::HashMap<String, i64>>(body).map(
        |m| m.into_iter().collect(),
    )
}

#[verifier::external_type_specification]
#[verifier::external_body]
pub struct ExSerdeJsonError(serde_json::Error);

/// Decodes the remote remap feed: a JSON object mapping decimal-string old
/// identifiers to integer new identifiers. Fails with `DecodeError` exactly
/// when the body is not such a document.
pub fn parse_id_change_log(body: &str) -> (r: Result<Vec<(String, i64)>, SyncError>)
    ensures
        r is Ok <==> changelog_of(body@) is Some,
        r is Ok ==> entries_match(r->Ok_0@, changelog_of(body@)->Some_0),
        r is Err ==> r->Err_0 == SyncError::DecodeError,
{
    match decode_changelog(body) {
        Ok(v) => Ok(v),
        Err(_) => Err(SyncError::DecodeError),
    }
}

} // verus!
