//! String comparison support. Login names arrive as `&str` borrows, and the
//! standard library's `str` equality has no specification in vstd, so it is
//! assumed here once and shared by every place that compares logins.

use vstd::prelude::*;

verus! {

/// Relies on `str`'s `==` (its `PartialEq` impl): two string slices compare
/// equal exactly when they hold the same characters.
pub assume_specification[ <str as PartialEq>::eq ](a: &str, b: &str) -> (r: bool)
    ensures
        r == (a@ == b@),
;

} // verus!
