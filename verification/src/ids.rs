//! Fresh identifiers for downloads and chunks.

use vstd::prelude::*;

verus! {

pub open spec fn is_lower_hex(c: char) -> bool {
    ('0' <= c && c <= '9') || ('a' <= c && c <= 'f')
}

/// The hyphenated lower-case form in which a version 4 UUID is displayed:
/// 36 characters, hyphens at 8, 13, 18 and 23, hex digits elsewhere, the
/// version digit `4` at 14 and a variant digit among `8`, `9`, `a`, `b` at 19.
pub open spec fn is_uuid_text(s: Seq<char>) -> bool {
    &&& s.len() == 36
    &&& s[14] == '4'
    &&& (s[19] == '8' || s[19] == '9' || s[19] == 'a' || s[19] == 'b')
    &&& forall|i: int|
        0 <= i < 36 ==> (if i == 8 || i == 13 || i == 18 || i == 23 {
            #[trigger] s[i] == '-'
        } else {
            is_lower_hex(s[i])
        })
}

/// Calls `uuid::Uuid::new_v4` and displays the result with `to_string`.
/// The value is random; the contract claims only its shape: the display
/// form is hyphenated lower-case hex, and `new_v4` sets the version bits
/// to 4 and the variant bits to `10`. `new_v4` panics when the
/// operating system gives no random bytes; nothing here rules that out.
#[verifier::external_body]
fn random_uuid_text() -> (r: String)
    ensures
        is_uuid_text(r@),
{
    uuid::Uuid::new_v4().to_string()
}

/// A fresh random identifier for a download or a chunk.
pub fn new_id() -> (r: String)
    ensures
        is_uuid_text(r@),
{
    random_uuid_text()
}

} // verus!
