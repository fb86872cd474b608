//! Fresh identifiers for enrolled identities.
use vstd::prelude::*;

verus! {

/// True of the text of a random (version 4, RFC 4122 variant) UUID in its
/// hyphenated form: 36 characters, hyphens after the 8th, 12th, 16th and
/// 20th digit, version digit `4`, variant digit one of `8`, `9`, `a`, `b`.
pub open spec fn is_random_uuid(id: Seq<char>) -> bool {
    &&& id.len() == 36
    &&& id[8] == '-' && id[13] == '-' && id[18] == '-' && id[23] == '-'
    &&& id[14] == '4'
    &&& (id[19] == '8' || id[19] == '9' || id[19] == 'a' || id[19] == 'b')
}

/// Relies on `uuid::Uuid::new_v4` and its `Display` (hyphenated lower-case
/// text): a random UUID, whose version and variant bits are set.
#[verifier::external_body]
pub(crate) fn random_uuid() -> (r: String)
    ensures
        is_random_uuid(r@),
{
    uuid::Uuid::new_v4().to_string()
}

} // verus!
