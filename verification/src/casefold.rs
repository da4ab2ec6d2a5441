//! Case folding, delegated to the standard library.
//!
//! Unicode lowercasing is far too large to restate, so its result is only
//! named: `lower_of(s)` is the character sequence that lowercasing `s`
//! yields. Everything the library proves about categorization and sort order
//! is stated through that name.

use vstd::prelude::*;

verus! {

/// The lowercase form of `s`, as `str::to_lowercase` computes it.
pub uninterp spec fn lower_of(s: Seq<char>) -> Seq<char>;

/// Relies on `str::to_lowercase`: its result depends on the input characters
/// alone, and is the value that `lower_of` names.
#[verifier::external_body]
pub(crate) fn lowercase(s: &str) -> (r: String)
    ensures
        r@ == lower_of(s@),
{
    s.to_lowercase()
}

} // verus!
