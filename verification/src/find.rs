//! Substring search over the bytes of strings.

use vstd::prelude::*;
use vstd::string::StringSliceAdditionalSpecFns;

verus! {

/// Whether `needle` stands in `haystack` from position `at` on.
pub open spec fn occurs_at(haystack: Seq<u8>, needle: Seq<u8>, at: int) -> bool {
    0 <= at && at + needle.len() <= haystack.len() && haystack.subrange(
        at,
        at + needle.len(),
    ) == needle
}

/// Whether `needle` stands somewhere in `haystack`.
pub open spec fn occurs(haystack: Seq<u8>, needle: Seq<u8>) -> bool {
    exists|at: int| occurs_at(haystack, needle, at)
}

/// `memchr::memmem::find`: the index of the first occurrence of the needle
/// in the haystack, if there is one.
#[verifier::external_body]
fn memmem_find(haystack: &[u8], needle: &[u8]) -> (first: Option<usize>)
    ensures
        match first {
            Some(at) => occurs_at(haystack@, needle@, at as int) && forall|earlier: int|
                earlier < at ==> !occurs_at(haystack@, needle@, earlier),
            None => !occurs(haystack@, needle@),
        },
{
    memchr::memmem::find(haystack, needle)
}

/// Whether the bytes of `needle` stand somewhere in those of `haystack`.
pub fn find(haystack: &str, needle: &str) -> (found: bool)
    ensures
        found == occurs(haystack.spec_bytes(), needle.spec_bytes()),
{
    memmem_find(haystack.as_bytes(), needle.as_bytes()).is_some()
}

} // verus!
