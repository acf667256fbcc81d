//! Comparisons on string slices.

use vstd::prelude::*;

verus! {

/// Whether two string slices hold the same characters.
///
/// Trusted: calls `str::eq` of the standard library, which compares the two
/// slices byte for byte; the contract says that this is equality of their
/// character sequences.
#[verifier::external_body]
pub(crate) fn same_text(a: &str, b: &str) -> (r: bool)
    ensures
        r == (a@ == b@),
{
    a == b
}

/// The rest of `s` behind `prefix`, if `s` starts with it.
///
/// Trusted: calls `str::strip_prefix` of the standard library, which returns
/// the slice after the prefix wrapped in `Some` when `s` starts with `prefix`,
/// and `None` otherwise.
#[verifier::external_body]
pub(crate) fn strip_prefix<'a>(s: &'a str, prefix: &str) -> (r: Option<&'a str>)
    ensures
        match r {
            Some(rest) => prefix@.is_prefix_of(s@) && rest@ == s@.skip(prefix@.len() as int),
            None => !prefix@.is_prefix_of(s@),
        },
{
    s.strip_prefix(prefix)
}

} // verus!
