//! The in-memory recipe model the engine works from.
//!
//! A recipe names a target process and lists, per module, the rule lists
//! for each architecture the recipe supports. Loading and parsing a recipe
//! document is the caller's job; the engine borrows the model read-only and
//! looks rule lists up by the architecture tag the detector produced.

use vstd::prelude::*;

use crate::arch::ArchTag;
use crate::engine::PatchData;

verus! {

/// The rules for one target module, keyed by architecture tag.
pub struct Patch {
    /// Name of the module the rules apply to.
    pub module: String,
    /// One rule list per supported architecture, in document order. A
    /// recipe document keys these by tag, so each tag is expected to appear
    /// at most once (`tags_unique`); `patterns_for` resolves a duplicate by
    /// taking the first entry.
    pub patterns: Vec<(ArchTag, PatchData)>,
}

/// A whole recipe: metadata plus the ordered module patches.
pub struct PatchRoot {
    /// Display name of the recipe.
    pub name: String,
    /// Version string of the recipe.
    pub version: String,
    /// Name of the process the recipe targets.
    pub process: String,
    /// The module patches, in document order.
    pub patches: Vec<Patch>,
}

impl Patch {
    /// The invariant a well-formed patch carries over from the recipe
    /// document, whose rule lists are keyed by tag: no architecture tag
    /// appears twice.
    pub open spec fn tags_unique(self) -> bool {
        forall|i: int, j: int|
            0 <= i < j < self.patterns@.len() ==> (#[trigger] self.patterns@[i]).0 != (
            #[trigger] self.patterns@[j]).0
    }

    /// The rule list for an architecture: the first entry carrying the tag,
    /// or `None` when this patch has no rules for it.
    pub fn patterns_for(&self, tag: ArchTag) -> (r: Option<&PatchData>)
        ensures
            match r {
                Some(pd) => exists|i: int|
                    0 <= i < self.patterns@.len() && (#[trigger] self.patterns@[i]).0 == tag && pd
                        == &self.patterns@[i].1 && (forall|j: int|
                        0 <= j < i ==> (#[trigger] self.patterns@[j]).0 != tag),
                None => forall|i: int|
                    0 <= i < self.patterns@.len() ==> (#[trigger] self.patterns@[i]).0 != tag,
            },
    {
        let mut i: usize = 0;
        while i < self.patterns.len()
            invariant
                i <= self.patterns@.len(),
                forall|j: int| 0 <= j < i ==> (#[trigger] self.patterns@[j]).0 != tag,
            decreases self.patterns@.len() - i,
        {
            if self.patterns[i].0 == tag {
                return Some(&self.patterns[i].1);
            }
            i = i + 1;
        }
        None
    }
}

} // verus!
