//! Spoken output shared by the applets: views of spoken parts.
use vstd::prelude::*;

verus! {

/// The characters of each spoken part.
pub open spec fn string_views(v: Seq<String>) -> Seq<Seq<char>> {
    v.map_values(|s: String| s@)
}

} // verus!
