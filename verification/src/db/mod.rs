//! What the catalogue computes around the store: the pattern a search by
//! name is sent with, and which of the books that come back answer the
//! rest of a search.
use vstd::prelude::*;
use vstd::string::StringExecFns;

pub mod book;

verus! {

/// The pattern that matches every text that contains `name`.
pub open spec fn containing(name: Seq<char>) -> Seq<char> {
    "%"@ + name + "%"@
}

/// The pattern that matches every text that contains `name`: the name
/// between two wildcards.
pub fn contains_pattern(name: &str) -> (pattern: String)
    ensures
        pattern@ == containing(name@),
{
    String::from_str("%").concat(name).concat("%")
}

} // verus!
