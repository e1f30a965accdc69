//! Checklists: the domain projection of the singleton
//! `momentum.checklist` document, its lazy default bootstrap, and
//! toggling.

use vstd::prelude::*;

use crate::doc::DocModel;
use crate::doc::{Patch, PatchMode};
use crate::fm::{dup_items, items_model, ChecklistItem, Fm, FmVal, FmValue};
use crate::ids::DocId;
use crate::storage::{LogicalKey, RealAethelStorage};
use crate::store::{
    archived_key, checklist_pred, checklist_type, doc_of, fingerprint_of, idx_of, is_checklist_doc,
    is_session_doc, lemma_idx_unique, lemma_overlay_keeps_flag, lemma_scan_min_char,
    lemma_scan_push_first_match, lemma_scan_push_nonmatching, lemma_scan_update_same,
    lemma_type_tags_distinct, scan_checklist_id, session_pred, vault_contains,
};
use crate::text::str_eq;
use crate::StoreError;

verus! {

/// The ordered items of the checklist document.
pub struct ChecklistData {
    pub items: Vec<ChecklistItem>,
}

impl ChecklistData {
    /// The checklist as a mathematical value: its items' models in
    /// display order.
    pub open spec fn model(self) -> Seq<(Seq<char>, Seq<char>, bool)> {
        items_model(self.items@)
    }

    /// A copy with the same model.
    pub fn dup(&self) -> (r: ChecklistData)
        ensures
            r.model() == self.model(),
    {
        ChecklistData { items: dup_items(&self.items) }
    }

    /// Flip the first item carrying an id. Returns whether any does;
    /// when none does the checklist is left exactly as it was.
    pub fn toggle_item(&mut self, id: &str) -> (found: bool)
        ensures
            found == has_item(old(self).model(), id@),
            final(self).model() == toggled_items(old(self).model(), id@),
            !found ==> final(self).model() == old(self).model(),
    {
        let ghost pre = self.model();
        let mut i: usize = 0;
        while i < self.items.len()
            invariant
                0 <= i <= self.items@.len(),
                pre == old(self).model(),
                pre == self.model(),
                pre.len() == self.items@.len(),
                forall|j: int| 0 <= j < i ==> pre[j].0 != id@,
            decreases self.items@.len() - i,
        {
            if str_eq(self.items[i].id.as_str(), id) {
                proof {
                    assert(pre[i as int] == self.items@[i as int].model());
                    assert(pre[i as int].0 == id@);
                }
                let it = self.items[i].dup();
                let flipped = ChecklistItem { id: it.id, text: it.text, on: !it.on };
                self.items.set(i, flipped);
                proof {
                    let k = i as int;
                    assert(self.model() =~= pre.update(k, (pre[k].0, pre[k].1, !pre[k].2)));
                    lemma_toggled_at(pre, id@, k);
                }
                return true;
            }
            i = i + 1;
        }
        proof {
            lemma_toggled_none(pre, id@);
        }
        false
    }
}

/// Whether some item carries the id.
pub open spec fn has_item(s: Seq<(Seq<char>, Seq<char>, bool)>, id: Seq<char>) -> bool {
    exists|i: int| 0 <= i < s.len() && s[i].0 == id
}

/// The items with the first item carrying the id flipped; without such
/// an item, the items unchanged.
pub open spec fn toggled_items(s: Seq<(Seq<char>, Seq<char>, bool)>, id: Seq<char>) -> Seq<
    (Seq<char>, Seq<char>, bool),
>
    decreases s.len(),
{
    if s.len() == 0 {
        Seq::empty()
    } else if s[0].0 == id {
        seq![(s[0].0, s[0].1, !s[0].2)] + s.drop_first()
    } else {
        seq![s[0]] + toggled_items(s.drop_first(), id)
    }
}

/// Where the first match sits, toggling updates that position alone.
pub proof fn lemma_toggled_at(s: Seq<(Seq<char>, Seq<char>, bool)>, id: Seq<char>, k: int)
    requires
        0 <= k < s.len(),
        s[k].0 == id,
        forall|j: int| 0 <= j < k ==> s[j].0 != id,
    ensures
        toggled_items(s, id) == s.update(k, (s[k].0, s[k].1, !s[k].2)),
    decreases s.len(),
{
    if k == 0 {
        assert(seq![(s[0].0, s[0].1, !s[0].2)] + s.drop_first() =~= s.update(
            0,
            (s[0].0, s[0].1, !s[0].2),
        ));
    } else {
        let t = s.drop_first();
        assert(t[k - 1] == s[k]);
        assert(forall|j: int| 0 <= j < k - 1 ==> t[j] == s[j + 1] && t[j].0 != id);
        lemma_toggled_at(t, id, k - 1);
        assert(seq![s[0]] + t.update(k - 1, (t[k - 1].0, t[k - 1].1, !t[k - 1].2)) =~= s.update(
            k,
            (s[k].0, s[k].1, !s[k].2),
        ));
    }
}

/// Without a match, toggling changes nothing.
pub proof fn lemma_toggled_none(s: Seq<(Seq<char>, Seq<char>, bool)>, id: Seq<char>)
    requires
        forall|i: int| 0 <= i < s.len() ==> s[i].0 != id,
    ensures
        toggled_items(s, id) == s,
    decreases s.len(),
{
    if s.len() > 0 {
        let t = s.drop_first();
        assert(forall|i: int| 0 <= i < t.len() ==> t[i] == s[i + 1] && t[i].0 != id);
        lemma_toggled_none(t, id);
        assert(seq![s[0]] + t =~= s);
    }
}

/// The fixed default item set the lazy bootstrap seeds.
pub open spec fn default_items_model() -> Seq<(Seq<char>, Seq<char>, bool)> {
    seq![
        ("clear-desk"@, "Clear the desk of everything unrelated"@, false),
        ("silence-phone"@, "Put the phone on silent"@, false),
        ("water"@, "Fill a glass of water"@, false),
        ("write-goal"@, "Write the goal down in one sentence"@, false),
    ]
}

impl Default for ChecklistData {
    /// The default checklist: the fixed item set, all unchecked.
    fn default() -> (r: ChecklistData)
        ensures
            r.model() == default_items_model(),
    {
        let mut items: Vec<ChecklistItem> = Vec::new();
        items.push(
            ChecklistItem {
                id: "clear-desk".to_owned(),
                text: "Clear the desk of everything unrelated".to_owned(),
                on: false,
            },
        );
        items.push(
            ChecklistItem {
                id: "silence-phone".to_owned(),
                text: "Put the phone on silent".to_owned(),
                on: false,
            },
        );
        items.push(
            ChecklistItem {
                id: "water".to_owned(),
                text: "Fill a glass of water".to_owned(),
                on: false,
            },
        );
        items.push(
            ChecklistItem {
                id: "write-goal".to_owned(),
                text: "Write the goal down in one sentence".to_owned(),
                on: false,
            },
        );
        let r = ChecklistData { items };
        proof {
            assert(r.model() =~= default_items_model());
        }
        r
    }
}

/// The frontmatter a checklist document carries.
pub open spec fn checklist_fm_model(items: Seq<(Seq<char>, Seq<char>, bool)>) -> Map<
    Seq<char>,
    FmVal,
> {
    Map::<Seq<char>, FmVal>::empty().insert("items"@, FmVal::Items(items))
}

/// The body of the checklist document.
pub open spec fn checklist_body() -> Seq<char> {
    "# Pre-Session Checklist\n\nComplete these items before starting your focus session."@
}

/// The checklist document the bootstrap creates.
pub open spec fn checklist_doc(id: DocId, items: Seq<(Seq<char>, Seq<char>, bool)>) -> DocModel {
    DocModel { id, ty: checklist_type(), fm: checklist_fm_model(items), body: checklist_body() }
}

/// The items stored in a frontmatter mapping, if it carries any.
pub open spec fn checklist_items_of(m: Map<Seq<char>, FmVal>) -> Option<
    Seq<(Seq<char>, Seq<char>, bool)>,
> {
    if m.contains_key("items"@) && m["items"@] is Items {
        Some(m["items"@]->Items_0)
    } else {
        None
    }
}

/// The checklist frontmatter never marks a document archived.
pub proof fn lemma_checklist_fm_not_archived(items: Seq<(Seq<char>, Seq<char>, bool)>)
    ensures
        !checklist_fm_model(items).contains_key(archived_key()),
{
    reveal_strlit("items");
    reveal_strlit("archived");
    assert("items"@.len() == 5);
    assert("archived"@.len() == 8);
}

/// Build the frontmatter a checklist is persisted as.
pub fn checklist_to_fm(data: &ChecklistData) -> (r: Fm)
    ensures
        r.wf(),
        r.model() == checklist_fm_model(data.model()),
{
    let mut f = Fm::new();
    f.set("items".to_owned(), FmValue::Items(dup_items(&data.items)));
    proof {
        assert(f.model() =~= checklist_fm_model(data.model()));
    }
    f
}

/// The merge an update performs on the checklist document.
pub open spec fn checklist_merged_doc(
    d: DocModel,
    items: Seq<(Seq<char>, Seq<char>, bool)>,
) -> DocModel {
    DocModel {
        id: d.id,
        ty: d.ty,
        fm: d.fm.union_prefer_right(checklist_fm_model(items)),
        body: d.body,
    }
}

impl RealAethelStorage {
    /// Resolve the checklist document, creating it with the default
    /// item set when the vault has none: the lazy singleton bootstrap.
    pub fn get_or_create_checklist(&mut self) -> (r: Result<(DocId, ChecklistData), StoreError>)
        requires
            old(self).wf(),
            old(self).vault.stamp < u64::MAX,
        ensures
            final(self).wf(),
            match r {
                Ok(p) => match scan_checklist_id(old(self).vault.model()) {
                    Some(existing) => p.0 == existing && final(self).vault == old(self).vault
                        && checklist_items_of(doc_of(old(self).vault.model(), existing).fm)
                        == Some(p.1.model()),
                    None => !vault_contains(old(self).vault.model(), p.0) && final(self).vault.model() == old(self).vault.model().push(
                        checklist_doc(p.0, default_items_model()),
                    ) && final(self).vault.stamp == old(self).vault.stamp + 1 && p.1.model()
                        == default_items_model(),
                },
                Err(e) => match e {
                    StoreError::MissingField { field } => field@ == "items"@ && final(self).vault
                        == old(self).vault && match scan_checklist_id(old(self).vault.model()) {
                        Some(existing) => checklist_items_of(
                            doc_of(old(self).vault.model(), existing).fm,
                        ) is None,
                        None => false,
                    },
                    StoreError::IdCollision => scan_checklist_id(old(self).vault.model()) is None
                        && old(self).vault.model().len() > 0 && final(self).vault == old(self).vault,
                    _ => false,
                },
            },
    {
        let existing = self.lookup(LogicalKey::Checklist);
        match existing {
            Some(cid) => {
                proof {
                    lemma_scan_min_char(self.vault.model(), checklist_pred());
                    let i = choose|i: int|
                        0 <= i < self.vault.model().len() && #[trigger] checklist_pred()(
                            self.vault.model()[i],
                        ) && self.vault.model()[i].id == cid;
                    lemma_idx_unique(self.vault.model(), i);
                }
                let d = match self.vault.read(cid) {
                    Ok(d) => d,
                    Err(e) => {
                        proof {
                            assert(false);
                        }
                        return Err(e);
                    },
                };
                match d.fm.get("items") {
                    Some(FmValue::Items(v)) => Ok((cid, ChecklistData { items: dup_items(v) })),
                    _ => Err(StoreError::MissingField { field: "items".to_owned() }),
                }
            },
            None => {
                let data = ChecklistData::default();
                let f = checklist_to_fm(&data);
                let patch = Patch {
                    id: None,
                    doc_type: Some("momentum.checklist".to_owned()),
                    frontmatter: Some(f),
                    body: Some(
                        "# Pre-Session Checklist\n\nComplete these items before starting your focus session.".to_owned(),
                    ),
                    mode: PatchMode::Create,
                };
                let ghost pre = self.vault.model();
                let res = self.vault.apply(patch);
                match res {
                    Ok(id) => {
                        proof {
                            let created = checklist_doc(id, default_items_model());
                            assert(self.vault.model() == pre.push(created));
                            lemma_type_tags_distinct();
                            assert(is_checklist_doc(created));
                            lemma_scan_push_first_match(pre, checklist_pred(), created);
                            lemma_scan_push_nonmatching(pre, session_pred(), created);
                        }
                        self.record(LogicalKey::Checklist, Some(id));
                        Ok((id, data))
                    },
                    Err(e) => Err(e),
                }
            },
        }
    }

    /// Overwrite the checklist document's items. The cache keeps its
    /// entries — the write unseats no logical key — and is re-stamped
    /// when it was fresh, so the next lookup still needs no rebuild.
    pub fn update_checklist(&mut self, id: DocId, checklist: &ChecklistData) -> (r: Result<
        (),
        StoreError,
    >)
        requires
            old(self).wf(),
            old(self).vault.stamp < u64::MAX,
        ensures
            final(self).wf(),
            match r {
                Ok(_) => vault_contains(old(self).vault.model(), id) && final(self).vault.model()
                    == old(self).vault.model().update(
                    idx_of(old(self).vault.model(), id),
                    checklist_merged_doc(doc_of(old(self).vault.model(), id), checklist.model()),
                ) && final(self).vault.stamp == old(self).vault.stamp + 1,
                Err(e) => e is NotFound && !vault_contains(old(self).vault.model(), id) && final(self).vault == old(self).vault,
            },
    {
        let f = checklist_to_fm(checklist);
        let patch = Patch {
            id: Some(id),
            doc_type: None,
            frontmatter: Some(f),
            body: None,
            mode: PatchMode::MergeFrontmatter,
        };
        let cur = self.vault.fingerprint();
        let was_fresh: bool = match &self.index {
            Some(idx) => idx.fp == cur,
            None => false,
        };
        let ghost pre = *self;
        let res = self.vault.apply(patch);
        match res {
            Ok(_) => {
                proof {
                    let i = idx_of(pre.vault.model(), id);
                    let merged = checklist_merged_doc(
                        doc_of(pre.vault.model(), id),
                        checklist.model(),
                    );
                    assert(self.vault.model() == pre.vault.model().update(i, merged));
                    lemma_checklist_fm_not_archived(checklist.model());
                    lemma_overlay_keeps_flag(
                        doc_of(pre.vault.model(), id).fm,
                        checklist_fm_model(checklist.model()),
                    );
                    assert(is_checklist_doc(merged) == is_checklist_doc(
                        doc_of(pre.vault.model(), id),
                    ));
                    assert(is_session_doc(merged) == is_session_doc(
                        doc_of(pre.vault.model(), id),
                    ));
                    lemma_scan_update_same(pre.vault.model(), checklist_pred(), i, merged);
                    lemma_scan_update_same(pre.vault.model(), session_pred(), i, merged);
                    match pre.index {
                        Some(idx) => {
                            if idx.fp != fingerprint_of(pre.vault) {
                                assert(idx.fp.stamp <= pre.vault.stamp < self.vault.stamp);
                            }
                        },
                        None => {},
                    }
                }
                if was_fresh {
                    self.refresh_fingerprint();
                }
                Ok(())
            },
            Err(e) => {
                proof {
                    assert(e is NotFound);
                }
                Err(e)
            },
        }
    }
}

/// Bootstrapping the checklist is stable: once a vault without a
/// checklist has been seeded with the default document, the scan finds
/// exactly that document, and projecting it yields the same default
/// items — so a second resolve returns the same id and the same items
/// as the first.
pub proof fn lemma_checklist_bootstrap_stable(v0: Seq<DocModel>, id: DocId)
    requires
        scan_checklist_id(v0) is None,
        crate::store::distinct_ids(v0),
        !vault_contains(v0, id),
    ensures
        scan_checklist_id(v0.push(checklist_doc(id, default_items_model()))) == Some(id),
        vault_contains(v0.push(checklist_doc(id, default_items_model())), id),
        checklist_items_of(
            doc_of(v0.push(checklist_doc(id, default_items_model())), id).fm,
        ) == Some(default_items_model()),
{
    let created = checklist_doc(id, default_items_model());
    let v1 = v0.push(created);
    lemma_scan_push_first_match(v0, checklist_pred(), created);
    assert forall|a: int, b: int| 0 <= a < b < v1.len() implies v1[a].id != v1[b].id by {
        if b < v0.len() {
        } else {
            assert(vault_contains(v0, v1[a].id));
        }
    }
    lemma_idx_unique(v1, v0.len() as int);
    reveal_strlit("items");
}

} // verus!
