//! In-game documentation: tutorial, hints and designer guide.

use vstd::prelude::*;

pub mod designer;
pub mod hints;
pub mod tutorial;

verus! {

/// The texts of a list of strings.
pub open spec fn texts_view(v: Seq<String>) -> Seq<Seq<char>> {
    v.map_values(|s: String| s@)
}

} // verus!
