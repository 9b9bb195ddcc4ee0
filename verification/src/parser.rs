//! Fingerprints of screen contents, to tell whether an agent's output
//! changed.

use vstd::prelude::*;

verus! {

/// The hash that a fresh `DefaultHasher` of the standard library gives a
/// text. All hashers made by `DefaultHasher::new` hash alike.
pub uninterp spec fn hash_of(content: Seq<char>) -> u64;

/// The fingerprint of a text: `Hash::hash` into `DefaultHasher::new`, then
/// `Hasher::finish`. Equal texts have equal fingerprints; nothing else is
/// claimed.
#[verifier::external_body]
pub fn content_hash(content: &str) -> (r: u64)
    ensures
        r == hash_of(content@),
{
    let mut hasher = std::collections::hash_map::DefaultHasher::new();
    std::hash::Hash::hash(content, &mut hasher);
    std::hash::Hasher::finish(&hasher)
}

} // verus!
