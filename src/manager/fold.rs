//! Case-insensitive comparison of names.

use vstd::prelude::*;

verus! {

/// The lowercase form of a character sequence, as Rust's `str::to_lowercase`
/// computes it.
pub uninterp spec fn lower_of(s: Seq<char>) -> Seq<char>;

/// Relies on `str::to_lowercase`: its result depends on the characters alone.
#[verifier::external_body]
pub(crate) fn lowercase(s: &str) -> (r: String)
    ensures
        r@ == lower_of(s@),
{
    s.to_lowercase()
}

/// Two names denote the same entry when their lowercase forms agree.
pub open spec fn same_name(a: Seq<char>, b: Seq<char>) -> bool {
    lower_of(a) == lower_of(b)
}

} // verus!
