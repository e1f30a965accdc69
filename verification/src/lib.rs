//! An indexed document store for focus-session tracking.
//!
//! Documents live in a vault; each has an id, a type tag, a typed
//! frontmatter mapping and a body. The store applies declarative patches
//! (create or merge-frontmatter), an index manager keeps O(1) lookups for
//! the logical keys `active_session` and `checklist` honest through
//! migration and fingerprint-based staleness detection, and a pure reducer
//! turns actions into effects over the store.

pub mod checklist;
pub mod codec;
pub mod doc;
pub mod effects;
pub mod fm;
pub mod ids;
pub mod reducer;
pub mod session;
pub mod storage;
pub mod store;
pub mod text;
pub mod timefmt;

use vstd::prelude::*;

verus! {

/// Errors surfaced by the store and its projections.
#[derive(Debug)]
pub enum StoreError {
    /// A document or logical key is absent.
    NotFound,
    /// A document's frontmatter block cannot be parsed.
    Corrupt,
    /// A required frontmatter field is absent or has the wrong shape;
    /// carries the field name.
    MissingField { field: String },
    /// A malformed patch: create with an id, create without a type,
    /// or merge without an id.
    InvalidPatch,
    /// The external analysis capability failed or timed out.
    AnalysisUnavailable,
    /// A checklist toggle named an id no item carries; non-fatal,
    /// always reported beside an unchanged snapshot.
    ChecklistItemNotFound { id: String },
    /// A freshly drawn document id collided with every existing document;
    /// practically unreachable.
    IdCollision,
}

/// The display name of each error variant.
pub open spec fn error_label(e: StoreError) -> Seq<char> {
    match e {
        StoreError::NotFound => "not found"@,
        StoreError::Corrupt => "corrupt document"@,
        StoreError::MissingField { .. } => "missing field"@,
        StoreError::InvalidPatch => "invalid patch"@,
        StoreError::AnalysisUnavailable => "analysis unavailable"@,
        StoreError::ChecklistItemNotFound { .. } => "checklist item not found"@,
        StoreError::IdCollision => "id collision"@,
    }
}

impl StoreError {
    /// The error's name, for display at the process edge.
    pub fn describe(&self) -> (r: String)
        ensures
            r@ == error_label(*self),
    {
        let name: &str = match self {
            StoreError::NotFound => "not found",
            StoreError::Corrupt => "corrupt document",
            StoreError::MissingField { .. } => "missing field",
            StoreError::InvalidPatch => "invalid patch",
            StoreError::AnalysisUnavailable => "analysis unavailable",
            StoreError::ChecklistItemNotFound { .. } => "checklist item not found",
            StoreError::IdCollision => "id collision",
        };
        name.to_owned()
    }
}

} // verus!
