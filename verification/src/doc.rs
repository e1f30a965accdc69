//! Documents and patches.
//!
//! A document has an immutable id, a type tag fixed at creation, a typed
//! frontmatter and a free-form body. A patch is a declarative write
//! intent: create a fresh document, or overlay frontmatter keys onto an
//! existing one.

use vstd::prelude::*;

use crate::fm::{Fm, FmVal};
use crate::ids::DocId;

verus! {

/// A single persisted unit.
pub struct Document {
    pub id: DocId,
    pub ty: String,
    pub fm: Fm,
    pub body: String,
}

/// The mathematical form of a document.
pub struct DocModel {
    pub id: DocId,
    pub ty: Seq<char>,
    pub fm: Map<Seq<char>, FmVal>,
    pub body: Seq<char>,
}

impl Document {
    /// The document as a mathematical value.
    pub open spec fn model(self) -> DocModel {
        DocModel { id: self.id, ty: self.ty@, fm: self.fm.model(), body: self.body@ }
    }

    /// Well-formed: the frontmatter has unique keys.
    pub open spec fn wf(self) -> bool {
        self.fm.wf()
    }

    /// A copy with the same model.
    pub fn dup(&self) -> (r: Document)
        ensures
            r.model() == self.model(),
            r.wf() == self.wf(),
    {
        Document {
            id: self.id,
            ty: self.ty.clone(),
            fm: self.fm.dup(),
            body: self.body.clone(),
        }
    }
}

/// The two write modes.
pub enum PatchMode {
    /// Make a new document with a fresh id; requires a type tag and no id.
    Create,
    /// Overlay frontmatter keys onto an existing document; requires an id.
    MergeFrontmatter,
}

/// A declarative write intent against the store.
pub struct Patch {
    pub id: Option<DocId>,
    pub doc_type: Option<String>,
    pub frontmatter: Option<Fm>,
    pub body: Option<String>,
    pub mode: PatchMode,
}

impl Patch {
    /// The frontmatter the patch carries, as a mapping; empty when absent.
    pub open spec fn fm_model(self) -> Map<Seq<char>, FmVal> {
        match self.frontmatter {
            Some(f) => f.model(),
            None => Map::empty(),
        }
    }

    /// The carried frontmatter, if any, has unique keys.
    pub open spec fn fm_wf(self) -> bool {
        match self.frontmatter {
            Some(f) => f.wf(),
            None => true,
        }
    }

    /// Whether the patch is well-shaped for its mode.
    pub open spec fn valid(self) -> bool {
        match self.mode {
            PatchMode::Create => self.id is None && self.doc_type is Some,
            PatchMode::MergeFrontmatter => self.id is Some,
        }
    }
}

/// The document a valid create patch makes, given the fresh id.
pub open spec fn created_doc(id: DocId, p: Patch) -> DocModel {
    DocModel {
        id,
        ty: p.doc_type->0@,
        fm: p.fm_model(),
        body: match p.body {
            Some(b) => b@,
            None => Seq::empty(),
        },
    }
}

/// The document a merge patch leaves: frontmatter keys overlaid, the body
/// replaced only when the patch supplies one, id and type untouched.
pub open spec fn merged_doc(d: DocModel, p: Patch) -> DocModel {
    DocModel {
        id: d.id,
        ty: d.ty,
        fm: d.fm.union_prefer_right(p.fm_model()),
        body: match p.body {
            Some(b) => b@,
            None => d.body,
        },
    }
}

/// Merging the same patch twice leaves the same document as merging it
/// once: the overlay is key-wise, so a second pass overwrites each key
/// with the value it already has, and the body with the same body.
pub proof fn lemma_merge_patch_idempotent(d: DocModel, p: Patch)
    ensures
        merged_doc(merged_doc(d, p), p) == merged_doc(d, p),
{
    crate::fm::lemma_merge_idempotent(d.fm, p.fm_model());
}

} // verus!
