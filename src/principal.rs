//! Whether a text names an account or canister identity.

use vstd::prelude::*;

verus! {

/// The text is a well-formed principal: its base32 body carries a matching
/// checksum and is written exactly in the canonical lower-case grouped form.
pub uninterp spec fn principal_text_valid(s: Seq<char>) -> bool;

/// Relies on `Principal::from_text` of ic-types, as ic-agent re-exports it (the
/// parser the agent itself uses): it accepts or refuses a text by its
/// characters alone, and refuses the empty text, whose decoding is shorter
/// than the checksum.
#[verifier::external_body]
pub(crate) fn is_principal_text(s: &str) -> (r: bool)
    ensures
        r == principal_text_valid(s@),
        s@.len() == 0 ==> !r,
{
    ic_agent::ic_types::Principal::from_text(s).is_ok()
}

} // verus!
