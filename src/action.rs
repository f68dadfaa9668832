//! The bulk action that a destination applies to every document it receives.
use vstd::prelude::*;

verus! {

/// How each document of a batch is written into a bulk request.
#[derive(Clone, Copy, Debug, PartialEq, Eq, Structural)]
pub enum BulkAction {
    /// Add the document; the store refuses it if its identifier is taken.
    Create,
    /// Add the document or replace the one with the same identifier.
    Index,
    /// Merge the document's members into the stored document named by its `_id` member.
    Update,
}

impl Default for BulkAction {
    fn default() -> (r: Self)
        ensures
            r == BulkAction::Create,
    {
        BulkAction::Create
    }
}

} // verus!
