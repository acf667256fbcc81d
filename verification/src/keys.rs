//! Which strings may serve as storage keys.
//!
//! Usernames, device ids and document ids name places in the store. Where
//! the store is kept in a file system each becomes one path segment, so a key
//! must not be able to name another place than its own.

use crate::text::same_text;
use vstd::prelude::*;
use vstd::string::StrSliceExecFns;

verus! {

/// A character that separates or ends path segments.
pub open spec fn is_separator(c: char) -> bool {
    c == '/' || c == '\\' || c == '\0'
}

/// The key is one path segment of its own: not empty, not a reference to the
/// current or the parent directory, and free of separators.
pub open spec fn safe_key(key: Seq<char>) -> bool {
    &&& key.len() > 0
    &&& key != "."@
    &&& key != ".."@
    &&& forall|i: int| 0 <= i < key.len() ==> !is_separator(#[trigger] key[i])
}

/// Whether a string may serve as a storage key.
pub fn is_safe_key(key: &str) -> (b: bool)
    ensures
        b == safe_key(key@),
{
    let n: usize = key.unicode_len();
    if n == 0 || same_text(key, ".") || same_text(key, "..") {
        return false;
    }
    let mut i: usize = 0;
    while i < n
        invariant
            n == key@.len(),
            i <= n,
            forall|j: int| 0 <= j < i ==> !is_separator(#[trigger] key@[j]),
        decreases n - i,
    {
        let c: char = key.get_char(i);
        if c == '/' || c == '\\' || c == '\0' {
            return false;
        }
        i += 1;
    }
    true
}

} // verus!
