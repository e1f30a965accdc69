//! The vault: every document of one workspace, with patch application
//! and the linear scans the index manager falls back to.
//!
//! The model of a vault is the sequence of its documents' models plus a
//! modification stamp that every write advances. Scans resolve a logical
//! key to the matching document with the least id — the deterministic
//! tie-break when two documents claim the same role.

use vstd::prelude::*;

use crate::doc::{created_doc, merged_doc, DocModel, Document, Patch, PatchMode};
use crate::fm::FmVal;
use crate::ids::{fresh_id, DocId};
use crate::text::str_eq;
use crate::StoreError;

verus! {

/// The models of a document vector, in order.
pub open spec fn docs_model(s: Seq<Document>) -> Seq<DocModel> {
    s.map_values(|d: Document| d.model())
}

/// No id occurs twice.
pub open spec fn distinct_ids(s: Seq<DocModel>) -> bool {
    forall|i: int, j: int| 0 <= i < j < s.len() ==> s[i].id != s[j].id
}

/// Whether some document carries the id.
pub open spec fn vault_contains(s: Seq<DocModel>, id: DocId) -> bool {
    exists|i: int| 0 <= i < s.len() && s[i].id == id
}

/// The index of the document carrying the id (meaningful when present
/// and ids are distinct).
pub open spec fn idx_of(s: Seq<DocModel>, id: DocId) -> int {
    choose|i: int| 0 <= i < s.len() && s[i].id == id
}

/// The document carrying the id.
pub open spec fn doc_of(s: Seq<DocModel>, id: DocId) -> DocModel {
    s[idx_of(s, id)]
}

/// With distinct ids, the witness index is the only one.
pub proof fn lemma_idx_unique(s: Seq<DocModel>, i: int)
    requires
        distinct_ids(s),
        0 <= i < s.len(),
    ensures
        idx_of(s, s[i].id) == i,
        doc_of(s, s[i].id) == s[i],
        vault_contains(s, s[i].id),
{
    assert(vault_contains(s, s[i].id));
    let j = idx_of(s, s[i].id);
    if j != i {
        assert(s[i].id != s[j].id);
    }
}

/// The type tag of session documents.
pub open spec fn session_type() -> Seq<char> {
    "momentum.session"@
}

/// The type tag of checklist documents.
pub open spec fn checklist_type() -> Seq<char> {
    "momentum.checklist"@
}

/// The type tag of reflection documents.
pub open spec fn reflection_type() -> Seq<char> {
    "momentum.reflection"@
}

/// The frontmatter key of the archival flag.
pub open spec fn archived_key() -> Seq<char> {
    "archived"@
}

/// Whether a document's frontmatter marks it archived.
pub open spec fn is_archived(d: DocModel) -> bool {
    d.fm.contains_key(archived_key()) && d.fm[archived_key()] == FmVal::Flag(true)
}

/// A non-archived session document: what `active_session` resolves to.
pub open spec fn is_session_doc(d: DocModel) -> bool {
    d.ty == session_type() && !is_archived(d)
}

/// A checklist document: what `checklist` resolves to.
pub open spec fn is_checklist_doc(d: DocModel) -> bool {
    d.ty == checklist_type()
}

/// The result of a full linear scan: the id of the matching document
/// with the least id, if any matches.
pub open spec fn scan_min(s: Seq<DocModel>, p: spec_fn(DocModel) -> bool) -> Option<DocId>
    decreases s.len(),
{
    if s.len() == 0 {
        None
    } else {
        let rest = scan_min(s.drop_last(), p);
        if p(s.last()) {
            match rest {
                None => Some(s.last().id),
                Some(j) => Some(
                    if s.last().id < j {
                        s.last().id
                    } else {
                        j
                    },
                ),
            }
        } else {
            rest
        }
    }
}

/// The active-session predicate, as a value for the scan.
pub open spec fn session_pred() -> spec_fn(DocModel) -> bool {
    |d: DocModel| is_session_doc(d)
}

/// The checklist predicate, as a value for the scan.
pub open spec fn checklist_pred() -> spec_fn(DocModel) -> bool {
    |d: DocModel| is_checklist_doc(d)
}

/// The linear scan for the active session.
pub open spec fn scan_active(s: Seq<DocModel>) -> Option<DocId> {
    scan_min(s, session_pred())
}

/// The linear scan for the checklist.
pub open spec fn scan_checklist_id(s: Seq<DocModel>) -> Option<DocId> {
    scan_min(s, checklist_pred())
}

/// What a scan returns: the least id among the matching documents, and
/// `None` exactly when nothing matches.
pub proof fn lemma_scan_min_char(s: Seq<DocModel>, p: spec_fn(DocModel) -> bool)
    ensures
        match scan_min(s, p) {
            Some(id) => (exists|i: int| 0 <= i < s.len() && #[trigger] p(s[i]) && s[i].id == id)
                && (forall|j: int| 0 <= j < s.len() && #[trigger] p(s[j]) ==> id <= s[j].id),
            None => forall|i: int| 0 <= i < s.len() ==> !#[trigger] p(s[i]),
        },
    decreases s.len(),
{
    if s.len() > 0 {
        lemma_scan_min_char(s.drop_last(), p);
        let d = s.drop_last();
        assert(forall|i: int| 0 <= i < d.len() ==> d[i] == s[i]);
        match scan_min(s, p) {
            Some(id) => {
                if p(s.last()) && s.last().id == id {
                    assert(0 <= s.len() - 1 < s.len() && p(s[s.len() - 1]) && s[s.len() - 1].id
                        == id);
                } else {
                    let i = choose|i: int| 0 <= i < d.len() && #[trigger] p(d[i]) && d[i].id == id;
                    assert(0 <= i < s.len() && p(s[i]) && s[i].id == id);
                }
            },
            None => {},
        }
    }
}

/// Appending a document that does not match leaves a scan unchanged.
pub proof fn lemma_scan_push_nonmatching(
    s: Seq<DocModel>,
    p: spec_fn(DocModel) -> bool,
    x: DocModel,
)
    requires
        !p(x),
    ensures
        scan_min(s.push(x), p) == scan_min(s, p),
{
    assert(s.push(x).drop_last() =~= s);
}

/// Appending a matching document when nothing matched makes it the
/// scan's answer.
pub proof fn lemma_scan_push_first_match(
    s: Seq<DocModel>,
    p: spec_fn(DocModel) -> bool,
    x: DocModel,
)
    requires
        p(x),
        scan_min(s, p) is None,
    ensures
        scan_min(s.push(x), p) == Some(x.id),
{
    assert(s.push(x).drop_last() =~= s);
}

/// Replacing a document with one of the same id and the same match
/// status leaves a scan unchanged.
pub proof fn lemma_scan_update_same(
    s: Seq<DocModel>,
    p: spec_fn(DocModel) -> bool,
    i: int,
    x: DocModel,
)
    requires
        0 <= i < s.len(),
        x.id == s[i].id,
        p(x) == p(s[i]),
    ensures
        scan_min(s.update(i, x), p) == scan_min(s, p),
    decreases s.len(),
{
    let t = s.update(i, x);
    if i == s.len() - 1 {
        assert(t.drop_last() =~= s.drop_last());
        assert(t.last() == x);
    } else {
        assert(t.drop_last() =~= s.drop_last().update(i, x));
        assert(s.drop_last()[i] == s[i]);
        lemma_scan_update_same(s.drop_last(), p, i, x);
        assert(t.last() == s.last());
    }
}

/// The whole vault: its documents and a modification stamp that every
/// write advances, standing for the newest modification time.
pub struct Vault {
    pub docs: Vec<Document>,
    pub stamp: u64,
}

/// The vault-wide freshness fingerprint: document count plus newest
/// modification stamp, comparable without a full scan.
#[derive(PartialEq, Eq, Structural, Clone, Copy)]
pub struct Fingerprint {
    pub count: usize,
    pub stamp: u64,
}

/// The fingerprint of a vault.
pub open spec fn fingerprint_of(v: Vault) -> Fingerprint {
    Fingerprint { count: v.model().len() as usize, stamp: v.stamp }
}

impl Vault {
    /// The vault as a sequence of document models.
    pub open spec fn model(self) -> Seq<DocModel> {
        docs_model(self.docs@)
    }

    /// Well-formed: every document well-formed, no id twice.
    pub open spec fn wf(self) -> bool {
        &&& forall|i: int| 0 <= i < self.docs@.len() ==> (#[trigger] self.docs@[i]).wf()
        &&& distinct_ids(self.model())
    }

    /// An empty vault.
    pub fn new() -> (r: Vault)
        ensures
            r.wf(),
            r.model() == Seq::<DocModel>::empty(),
            r.stamp == 0,
    {
        let v = Vault { docs: Vec::new(), stamp: 0 };
        proof {
            assert(v.model() =~= Seq::<DocModel>::empty());
        }
        v
    }

    /// The current freshness fingerprint.
    pub fn fingerprint(&self) -> (r: Fingerprint)
        ensures
            r == fingerprint_of(*self),
    {
        Fingerprint { count: self.docs.len(), stamp: self.stamp }
    }

    /// The position of the document carrying an id.
    fn find_index(&self, id: DocId) -> (r: Option<usize>)
        requires
            self.wf(),
        ensures
            match r {
                Some(i) => i < self.model().len() && self.model()[i as int].id == id
                    && vault_contains(self.model(), id) && idx_of(self.model(), id) == i as int,
                None => !vault_contains(self.model(), id),
            },
    {
        let mut i: usize = 0;
        while i < self.docs.len()
            invariant
                self.wf(),
                0 <= i <= self.docs@.len(),
                self.model().len() == self.docs@.len(),
                forall|j: int| 0 <= j < i ==> self.model()[j].id != id,
            decreases self.docs@.len() - i,
        {
            if self.docs[i].id == id {
                proof {
                    lemma_idx_unique(self.model(), i as int);
                }
                return Some(i);
            }
            i = i + 1;
        }
        None
    }

    /// Whether a document with the id exists.
    pub fn contains(&self, id: DocId) -> (r: bool)
        requires
            self.wf(),
        ensures
            r == vault_contains(self.model(), id),
    {
        match self.find_index(id) {
            Some(_) => true,
            None => false,
        }
    }

    /// Read the document with an id; `NotFound` exactly when absent.
    pub fn read(&self, id: DocId) -> (r: Result<&Document, StoreError>)
        requires
            self.wf(),
        ensures
            match r {
                Ok(d) => vault_contains(self.model(), id) && d.model() == doc_of(
                    self.model(),
                    id,
                ) && d.wf(),
                Err(e) => e is NotFound && !vault_contains(self.model(), id),
            },
    {
        match self.find_index(id) {
            Some(i) => Ok(&self.docs[i]),
            None => Err(StoreError::NotFound),
        }
    }

    /// Execute a patch. A valid merge overlays the target's frontmatter
    /// and advances the stamp; a valid create appends a fresh document.
    /// Errors leave the vault untouched: `InvalidPatch` exactly on a
    /// malformed patch, `NotFound` exactly when a merge names an absent
    /// id, and `IdCollision` only when the drawn id is already in use.
    pub fn apply(&mut self, patch: Patch) -> (r: Result<DocId, StoreError>)
        requires
            old(self).wf(),
            old(self).stamp < u64::MAX,
            patch.fm_wf(),
        ensures
            final(self).wf(),
            apply_spec(*old(self), patch, *final(self), r),
    {
        match patch.mode {
            PatchMode::Create => {
                if patch.id.is_some() || patch.doc_type.is_none() {
                    return Err(StoreError::InvalidPatch);
                }
                let id = fresh_id();
                if self.contains(id) {
                    proof {
                        assert(vault_contains(self.model(), id));
                        assert(self.model().len() > 0);
                    }
                    return Err(StoreError::IdCollision);
                }
                let doc = Document {
                    id,
                    ty: match patch.doc_type {
                        Some(t) => t,
                        None => String::new(),
                    },
                    fm: match patch.frontmatter {
                        Some(f) => f,
                        None => crate::fm::Fm::new(),
                    },
                    body: match patch.body {
                        Some(b) => b,
                        None => String::new(),
                    },
                };
                let ghost pre = self.model();
                self.docs.push(doc);
                self.stamp = self.stamp + 1;
                proof {
                    assert(self.model() =~= pre.push(doc.model()));
                    assert forall|a: int, b: int|
                        0 <= a < b < self.model().len() implies self.model()[a].id
                        != self.model()[b].id by {
                        if b < pre.len() {
                            assert(pre[a].id != pre[b].id);
                        } else {
                            assert(vault_contains(pre, pre[a].id));
                        }
                    }
                }
                Ok(id)
            },
            PatchMode::MergeFrontmatter => {
                let target = match patch.id {
                    Some(t) => t,
                    None => {
                        return Err(StoreError::InvalidPatch);
                    },
                };
                let i = match self.find_index(target) {
                    Some(i) => i,
                    None => {
                        return Err(StoreError::NotFound);
                    },
                };
                let ghost pre = self.model();
                let ghost predoc = self.docs@[i as int];
                let mut d = self.docs[i].dup();
                match &patch.frontmatter {
                    Some(f) => {
                        d.fm.merge_from(f);
                    },
                    None => {
                        proof {
                            assert(d.fm.model() =~= d.fm.model().union_prefer_right(
                                Map::<Seq<char>, FmVal>::empty(),
                            ));
                        }
                    },
                }
                match patch.body {
                    Some(b) => {
                        d.body = b;
                    },
                    None => {},
                }
                proof {
                    assert(d.model() == merged_doc(predoc.model(), patch));
                }
                self.docs.set(i, d);
                self.stamp = self.stamp + 1;
                proof {
                    assert(self.model() =~= pre.update(i as int, merged_doc(
                        doc_of(pre, target),
                        patch,
                    )));
                    assert forall|a: int, b: int|
                        0 <= a < b < self.model().len() implies self.model()[a].id
                        != self.model()[b].id by {
                        assert(pre[a].id != pre[b].id);
                    }
                }
                Ok(target)
            },
        }
    }

    /// Add a document under its own id, as a vault loader does; refused
    /// when the id is already taken. The stamp is left to the caller.
    pub fn insert_doc(&mut self, d: Document) -> (r: bool)
        requires
            old(self).wf(),
            d.wf(),
        ensures
            final(self).wf(),
            r == !vault_contains(old(self).model(), d.model().id),
            r ==> final(self).model() == old(self).model().push(d.model()) && final(self).stamp
                == old(self).stamp,
            !r ==> *final(self) == *old(self),
    {
        if self.contains(d.id) {
            return false;
        }
        let ghost pre = self.model();
        let ghost dm = d.model();
        self.docs.push(d);
        proof {
            assert(self.model() =~= pre.push(dm));
            assert forall|a: int, b: int|
                0 <= a < b < self.model().len() implies self.model()[a].id != self.model()[b].id by {
                if b < pre.len() {
                    assert(pre[a].id != pre[b].id);
                } else {
                    assert(vault_contains(pre, pre[a].id));
                }
            }
        }
        true
    }

    /// The linear scan for the first (least-id) non-archived session
    /// document.
    pub fn scan_active_session(&self) -> (r: Option<DocId>)
        requires
            self.wf(),
        ensures
            r == scan_active(self.model()),
    {
        let mut best: Option<DocId> = None;
        let mut i: usize = 0;
        proof {
            assert(self.model().subrange(0, 0) =~= Seq::<DocModel>::empty());
        }
        while i < self.docs.len()
            invariant
                self.wf(),
                0 <= i <= self.docs@.len(),
                self.model().len() == self.docs@.len(),
                best == scan_active(self.model().subrange(0, i as int)),
            decreases self.docs@.len() - i,
        {
            let d = &self.docs[i];
            let matches_here = doc_is_active_session(d);
            proof {
                assert(self.model().subrange(0, i + 1).drop_last() =~= self.model().subrange(
                    0,
                    i as int,
                ));
                assert(self.model().subrange(0, i + 1).last() == self.model()[i as int]);
            }
            if matches_here {
                best = match best {
                    None => Some(d.id),
                    Some(j) => Some(
                        if d.id < j {
                            d.id
                        } else {
                            j
                        },
                    ),
                };
            }
            i = i + 1;
        }
        proof {
            assert(self.model().subrange(0, self.docs@.len() as int) =~= self.model());
        }
        best
    }

    /// The linear scan for the first (least-id) checklist document.
    pub fn scan_checklist(&self) -> (r: Option<DocId>)
        requires
            self.wf(),
        ensures
            r == scan_checklist_id(self.model()),
    {
        let mut best: Option<DocId> = None;
        let mut i: usize = 0;
        proof {
            assert(self.model().subrange(0, 0) =~= Seq::<DocModel>::empty());
        }
        while i < self.docs.len()
            invariant
                self.wf(),
                0 <= i <= self.docs@.len(),
                self.model().len() == self.docs@.len(),
                best == scan_checklist_id(self.model().subrange(0, i as int)),
            decreases self.docs@.len() - i,
        {
            let d = &self.docs[i];
            let matches_here = str_eq(d.ty.as_str(), "momentum.checklist");
            proof {
                assert(self.model().subrange(0, i + 1).drop_last() =~= self.model().subrange(
                    0,
                    i as int,
                ));
                assert(self.model().subrange(0, i + 1).last() == self.model()[i as int]);
            }
            if matches_here {
                best = match best {
                    None => Some(d.id),
                    Some(j) => Some(
                        if d.id < j {
                            d.id
                        } else {
                            j
                        },
                    ),
                };
            }
            i = i + 1;
        }
        proof {
            assert(self.model().subrange(0, self.docs@.len() as int) =~= self.model());
        }
        best
    }

    /// How many documents match the active-session scan; more than one
    /// is a data-integrity anomaly that must be reported.
    pub fn count_active_sessions(&self) -> (r: usize)
        requires
            self.wf(),
        ensures
            r == count_matching(self.model(), session_pred()),
    {
        let mut n: usize = 0;
        let mut i: usize = 0;
        proof {
            assert(self.model().subrange(0, 0) =~= Seq::<DocModel>::empty());
        }
        while i < self.docs.len()
            invariant
                self.wf(),
                0 <= i <= self.docs@.len(),
                self.model().len() == self.docs@.len(),
                n == count_matching(self.model().subrange(0, i as int), session_pred()),
                n <= i,
            decreases self.docs@.len() - i,
        {
            let d = &self.docs[i];
            let matches_here = doc_is_active_session(d);
            proof {
                assert(self.model().subrange(0, i + 1).drop_last() =~= self.model().subrange(
                    0,
                    i as int,
                ));
                assert(self.model().subrange(0, i + 1).last() == self.model()[i as int]);
            }
            if matches_here {
                n = n + 1;
            }
            i = i + 1;
        }
        proof {
            assert(self.model().subrange(0, self.docs@.len() as int) =~= self.model());
        }
        n
    }
}

/// How many documents satisfy a predicate.
pub open spec fn count_matching(s: Seq<DocModel>, p: spec_fn(DocModel) -> bool) -> nat
    decreases s.len(),
{
    if s.len() == 0 {
        0
    } else {
        count_matching(s.drop_last(), p) + if p(s.last()) {
            1nat
        } else {
            0nat
        }
    }
}

/// Whether a document is a non-archived session document.
pub fn doc_is_active_session(d: &Document) -> (r: bool)
    requires
        d.wf(),
    ensures
        r == is_session_doc(d.model()),
{
    if !str_eq(d.ty.as_str(), "momentum.session") {
        return false;
    }
    let archived: bool = match d.fm.get("archived") {
        Some(v) => match v {
            crate::fm::FmValue::Flag(b) => *b,
            _ => false,
        },
        None => false,
    };
    !archived
}

/// The three document type tags differ pairwise, and no session
/// frontmatter key is the archival key.
pub proof fn lemma_type_tags_distinct()
    ensures
        session_type() != checklist_type(),
        session_type() != reflection_type(),
        checklist_type() != reflection_type(),
{
    reveal_strlit("momentum.session");
    reveal_strlit("momentum.checklist");
    reveal_strlit("momentum.reflection");
    assert(session_type().len() == 16);
    assert(checklist_type().len() == 18);
    assert(reflection_type().len() == 19);
}

/// Overlaying frontmatter that does not name the archival key leaves
/// the archival flag as it was.
pub proof fn lemma_overlay_keeps_flag(
    base: Map<Seq<char>, FmVal>,
    overlay: Map<Seq<char>, FmVal>,
)
    requires
        !overlay.contains_key(archived_key()),
    ensures
        base.union_prefer_right(overlay).contains_key(archived_key()) == base.contains_key(
            archived_key(),
        ),
        base.contains_key(archived_key()) ==> base.union_prefer_right(overlay)[archived_key()]
            == base[archived_key()],
{
}

/// The full meaning of one `apply` call: how the new vault and the
/// result relate to the old vault and the patch.
pub open spec fn apply_spec(
    pre: Vault,
    patch: Patch,
    post: Vault,
    r: Result<DocId, StoreError>,
) -> bool {
    match r {
        Ok(id) => {
            &&& patch.valid()
            &&& post.stamp == pre.stamp + 1
            &&& match patch.mode {
                PatchMode::Create => {
                    &&& !vault_contains(pre.model(), id)
                    &&& post.model() == pre.model().push(created_doc(id, patch))
                },
                PatchMode::MergeFrontmatter => {
                    &&& id == patch.id->0
                    &&& vault_contains(pre.model(), id)
                    &&& post.model() == pre.model().update(
                        idx_of(pre.model(), id),
                        merged_doc(doc_of(pre.model(), id), patch),
                    )
                },
            }
        },
        Err(e) => {
            &&& post == pre
            &&& match e {
                StoreError::InvalidPatch => !patch.valid(),
                StoreError::NotFound => patch.valid() && patch.mode is MergeFrontmatter
                    && !vault_contains(pre.model(), patch.id->0),
                StoreError::IdCollision => patch.valid() && patch.mode is Create
                    && pre.model().len() > 0,
                _ => false,
            }
        },
    }
}

} // verus!
