//! Page-title validation.
//!
//! A title doubles as a file name, so only a safe character set is accepted:
//! ASCII letters, digits, underscore and hyphen. Everything else — path
//! separators, dots, Unicode — is rejected, which rules out path traversal
//! and keeps non-page files out of the listing.

use vstd::prelude::*;
use vstd::string::StrSliceExecFns;

verus! {

/// A character that may appear in a page title.
pub open spec fn allowed_char(c: char) -> bool {
    ('A' <= c && c <= 'Z') || ('a' <= c && c <= 'z') || ('0' <= c && c <= '9') || c == '_' || c
        == '-'
}

/// A valid title is non-empty and made of allowed characters only.
pub open spec fn valid_title(s: Seq<char>) -> bool {
    s.len() > 0 && forall|i: int| 0 <= i < s.len() ==> allowed_char(s[i])
}

/// Decides whether a client-supplied title must be rejected.
pub fn is_bad_title(title: &str) -> (r: bool)
    ensures
        r == !valid_title(title@),
{
    let n = title.unicode_len();
    if n == 0 {
        return true;
    }
    let mut i: usize = 0;
    while i < n
        invariant
            n == title@.len(),
            i <= n,
            forall|j: int| 0 <= j < i ==> allowed_char(title@[j]),
        decreases n - i,
    {
        let c = title.get_char(i);
        let ok = ('A' <= c && c <= 'Z') || ('a' <= c && c <= 'z') || ('0' <= c && c <= '9') || c
            == '_' || c == '-';
        if !ok {
            return true;
        }
        i += 1;
    }
    false
}

} // verus!
